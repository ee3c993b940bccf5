//! Parsing of a record stream under an input convention: a byte-at-a-time
//! state machine whose fold over the input defines exactly which inputs
//! parse, and to which records.

use vstd::prelude::*;

use crate::convention::{EscapeMode, InputConvention, Terminator};
use crate::emit::is_terminator_byte;

verus! {

/// Why a record stream fails to parse.
#[derive(Clone, Copy, PartialEq, Eq, Structural, Debug)]
pub enum ParseError {
    /// The input ended inside a quoted field.
    UnterminatedQuote,
    /// A closed quoted field was followed by a byte other than the
    /// delimiter or a terminator byte.
    InvalidAfterQuote,
}

/// Where the parser stands between two bytes.
#[derive(Clone, Copy, PartialEq, Eq, Structural, Debug)]
pub enum ScanMode {
    /// Inside an unquoted field (possibly still empty).
    Unquoted,
    /// Inside a quoted field, after the opening quote.
    Quoted,
    /// Inside a quoted field, right after the escape byte.
    QuotedEscape,
    /// Right after a quote read inside a quoted field: under quote-doubling
    /// it may be doubled, otherwise the field is closed.
    QuoteEnd,
    /// Right after a `\r` that ended a record; a following `\n` belongs to
    /// the same terminator.
    AfterCr,
    /// A parse error was found; the rest of the input is ignored.
    Failed(ParseError),
}

/// The parser's full state: the records finished so far, the fields of the
/// record in progress, the content of the field in progress, and the mode.
#[verifier::ext_equal]
pub struct ScanState {
    pub records: Seq<Seq<Seq<u8>>>,
    pub rec: Seq<Seq<u8>>,
    pub field: Seq<u8>,
    pub mode: ScanMode,
}

/// The state before any byte is read.
pub open spec fn init_state() -> ScanState {
    ScanState {
        records: Seq::empty(),
        rec: Seq::empty(),
        field: Seq::empty(),
        mode: ScanMode::Unquoted,
    }
}

/// Close the current field: it joins the record in progress.
pub open spec fn end_field(st: ScanState) -> ScanState {
    ScanState {
        records: st.records,
        rec: st.rec.push(st.field),
        field: Seq::empty(),
        mode: ScanMode::Unquoted,
    }
}

/// Close the current record: the current field joins it, and it joins the
/// finished records. Every record so ends with at least one field.
pub open spec fn end_record(st: ScanState, after_cr: bool) -> ScanState {
    ScanState {
        records: st.records.push(st.rec.push(st.field)),
        rec: Seq::empty(),
        field: Seq::empty(),
        mode: if after_cr {
            ScanMode::AfterCr
        } else {
            ScanMode::Unquoted
        },
    }
}

/// Append one byte to the field in progress, in the given mode.
pub open spec fn push_byte(st: ScanState, b: u8, mode: ScanMode) -> ScanState {
    ScanState { records: st.records, rec: st.rec, field: st.field.push(b), mode }
}

/// Keep the state, changing only the mode.
pub open spec fn with_mode(st: ScanState, mode: ScanMode) -> ScanState {
    ScanState { records: st.records, rec: st.rec, field: st.field, mode }
}

/// Whether `b` is the escape byte of the input convention.
pub open spec fn is_input_escape(b: u8, c: InputConvention) -> bool {
    match c.escape {
        EscapeMode::Prefix(e) => b == e,
        EscapeMode::Double => false,
    }
}

/// Whether ending a record at `b` must look out for a following `\n`:
/// only after a `\r`, and only when the terminator is not a fixed byte.
pub open spec fn enters_after_cr(b: u8, c: InputConvention) -> bool {
    b == 13 && !(c.terminator is Byte)
}

/// One step of the parser in every mode but `AfterCr`.
pub open spec fn step_core(st: ScanState, b: u8, c: InputConvention) -> ScanState {
    match st.mode {
        ScanMode::Unquoted => {
            if b == c.delimiter {
                end_field(st)
            } else if is_terminator_byte(b, c.terminator) {
                end_record(st, enters_after_cr(b, c))
            } else if b == c.quote && st.field.len() == 0 {
                with_mode(st, ScanMode::Quoted)
            } else {
                push_byte(st, b, ScanMode::Unquoted)
            }
        },
        ScanMode::Quoted => {
            if is_input_escape(b, c) {
                with_mode(st, ScanMode::QuotedEscape)
            } else if b == c.quote {
                with_mode(st, ScanMode::QuoteEnd)
            } else {
                push_byte(st, b, ScanMode::Quoted)
            }
        },
        ScanMode::QuotedEscape => push_byte(st, b, ScanMode::Quoted),
        ScanMode::QuoteEnd => {
            if c.escape is Double && b == c.quote {
                push_byte(st, b, ScanMode::Quoted)
            } else if b == c.delimiter {
                end_field(st)
            } else if is_terminator_byte(b, c.terminator) {
                end_record(st, enters_after_cr(b, c))
            } else {
                with_mode(st, ScanMode::Failed(ParseError::InvalidAfterQuote))
            }
        },
        ScanMode::AfterCr => st,  // not reached: `step` resolves this mode first
        ScanMode::Failed(_) => st,
    }
}

/// One step of the parser: a `\n` right after a record-ending `\r` is part
/// of the same terminator; any other byte after it starts afresh.
pub open spec fn step(st: ScanState, b: u8, c: InputConvention) -> ScanState {
    if st.mode is AfterCr {
        if b == 10 {
            with_mode(st, ScanMode::Unquoted)
        } else {
            step_core(with_mode(st, ScanMode::Unquoted), b, c)
        }
    } else {
        step_core(st, b, c)
    }
}

/// The parser's state after reading `data` from state `st`.
pub open spec fn run_from(st: ScanState, data: Seq<u8>, c: InputConvention) -> ScanState
    decreases data.len(),
{
    if data.len() == 0 {
        st
    } else {
        step(run_from(st, data.drop_last(), c), data.last(), c)
    }
}

/// The parser's state after reading all of `data`.
pub open spec fn run_scan(data: Seq<u8>, c: InputConvention) -> ScanState {
    run_from(init_state(), data, c)
}

/// The records at the end of the input: pending content forms one last
/// record; an unterminated quoted field is an error.
pub open spec fn finish(st: ScanState) -> Result<Seq<Seq<Seq<u8>>>, ParseError> {
    match st.mode {
        ScanMode::Unquoted => {
            if st.rec.len() == 0 && st.field.len() == 0 {
                Result::Ok(st.records)
            } else {
                Result::Ok(st.records.push(st.rec.push(st.field)))
            }
        },
        ScanMode::Quoted => Result::Err(ParseError::UnterminatedQuote),
        ScanMode::QuotedEscape => Result::Err(ParseError::UnterminatedQuote),
        ScanMode::QuoteEnd => Result::Ok(st.records.push(st.rec.push(st.field))),
        ScanMode::AfterCr => Result::Ok(st.records),
        ScanMode::Failed(e) => Result::Err(e),
    }
}

/// What parsing `data` under convention `c` yields: the records, in order,
/// each an ordered sequence of raw byte fields; or the first error.
pub open spec fn parse_spec(data: Seq<u8>, c: InputConvention) -> Result<
    Seq<Seq<Seq<u8>>>,
    ParseError,
> {
    finish(run_scan(data, c))
}

/// Parse a whole record stream under convention `c`. Returns exactly what
/// [`parse_spec`] says: `Ok` with the records if and only if no quoted
/// field is left unterminated and nothing but a delimiter or terminator
/// follows a closed quoted field; the first error otherwise.
pub fn parse_records(data: &Vec<u8>, c: &InputConvention) -> (r: Result<
    Vec<Vec<Vec<u8>>>,
    ParseError,
>)
    ensures
        r is Ok <==> parse_spec(data@, *c) is Ok,
        r is Ok ==> r->Ok_0.deep_view() == parse_spec(data@, *c)->Ok_0,
        r is Err ==> r->Err_0 == parse_spec(data@, *c)->Err_0,
{
    let mut records: Vec<Vec<Vec<u8>>> = Vec::new();
    let mut rec: Vec<Vec<u8>> = Vec::new();
    let mut field: Vec<u8> = Vec::new();
    let mut mode: ScanMode = ScanMode::Unquoted;
    let mut i: usize = 0;
    proof {
        assert(records.deep_view() =~~= Seq::<Seq<Seq<u8>>>::empty());
        assert(rec.deep_view() =~~= Seq::<Seq<u8>>::empty());
        assert(data@.take(0) =~= Seq::<u8>::empty());
    }
    while i < data.len()
        invariant
            i <= data.len(),
            run_scan(data@.take(i as int), *c) == (ScanState {
                records: records.deep_view(),
                rec: rec.deep_view(),
                field: field@,
                mode: mode,
            }),
        decreases data.len() - i,
    {
        let b = data[i];
        proof {
            assert(data@.take(i + 1).drop_last() =~= data@.take(i as int));
            assert(data@.take(i + 1).last() == data@[i as int]);
        }
        let ghost pre = run_scan(data@.take(i as int), *c);
        let mut swallowed: bool = false;
        let step_mode: ScanMode = if matches!(mode, ScanMode::AfterCr) {
            if b == 10 {
                swallowed = true;
            }
            ScanMode::Unquoted
        } else {
            mode
        };
        if swallowed {
            mode = ScanMode::Unquoted;
        } else {
            proof {
                assert(run_scan(data@.take(i + 1), *c) == step_core(
                    with_mode(pre, step_mode),
                    b,
                    *c,
                ));
            }
            match step_mode {
                ScanMode::Unquoted => {
                    if b == c.delimiter {
                        rec.push(field);
                        field = Vec::new();
                        mode = ScanMode::Unquoted;
                        proof {
                            assert(rec.deep_view() =~~= pre.rec.push(pre.field));
                        }
                    } else if crate::emit::check_terminator_byte(b, &c.terminator) {
                        rec.push(field);
                        records.push(rec);
                        proof {
                            assert(records.deep_view() =~~= pre.records.push(
                                pre.rec.push(pre.field),
                            ));
                        }
                        rec = Vec::new();
                        field = Vec::new();
                        proof {
                            assert(rec.deep_view() =~~= Seq::<Seq<u8>>::empty());
                        }
                        mode = if b == 13 && !matches!(c.terminator, Terminator::Byte(_)) {
                            ScanMode::AfterCr
                        } else {
                            ScanMode::Unquoted
                        };
                    } else if b == c.quote && field.len() == 0 {
                        mode = ScanMode::Quoted;
                    } else {
                        field.push(b);
                        mode = ScanMode::Unquoted;
                    }
                },
                ScanMode::Quoted => {
                    let is_esc: bool = match c.escape {
                        EscapeMode::Prefix(e) => b == e,
                        EscapeMode::Double => false,
                    };
                    if is_esc {
                        mode = ScanMode::QuotedEscape;
                    } else if b == c.quote {
                        mode = ScanMode::QuoteEnd;
                    } else {
                        field.push(b);
                    }
                },
                ScanMode::QuotedEscape => {
                    field.push(b);
                    mode = ScanMode::Quoted;
                },
                ScanMode::QuoteEnd => {
                    let doubled: bool = matches!(c.escape, EscapeMode::Double) && b == c.quote;
                    if doubled {
                        field.push(b);
                        mode = ScanMode::Quoted;
                    } else if b == c.delimiter {
                        rec.push(field);
                        field = Vec::new();
                        mode = ScanMode::Unquoted;
                        proof {
                            assert(rec.deep_view() =~~= pre.rec.push(pre.field));
                        }
                    } else if crate::emit::check_terminator_byte(b, &c.terminator) {
                        rec.push(field);
                        records.push(rec);
                        proof {
                            assert(records.deep_view() =~~= pre.records.push(
                                pre.rec.push(pre.field),
                            ));
                        }
                        rec = Vec::new();
                        field = Vec::new();
                        proof {
                            assert(rec.deep_view() =~~= Seq::<Seq<u8>>::empty());
                        }
                        mode = if b == 13 && !matches!(c.terminator, Terminator::Byte(_)) {
                            ScanMode::AfterCr
                        } else {
                            ScanMode::Unquoted
                        };
                    } else {
                        mode = ScanMode::Failed(ParseError::InvalidAfterQuote);
                    }
                },
                ScanMode::AfterCr => {
                    // not reached: `step_mode` is never `AfterCr`
                },
                ScanMode::Failed(_) => {
                    // the state no longer changes
                },
            }
        }
        i += 1;
    }
    proof {
        assert(data@.take(data@.len() as int) =~= data@);
    }
    match mode {
        ScanMode::Unquoted => {
            if rec.len() == 0 && field.len() == 0 {
                Result::Ok(records)
            } else {
                rec.push(field);
                records.push(rec);
                proof {
                    let st = run_scan(data@, *c);
                    assert(records.deep_view() =~~= st.records.push(st.rec.push(st.field)));
                }
                Result::Ok(records)
            }
        },
        ScanMode::Quoted => Result::Err(ParseError::UnterminatedQuote),
        ScanMode::QuotedEscape => Result::Err(ParseError::UnterminatedQuote),
        ScanMode::QuoteEnd => {
            rec.push(field);
            records.push(rec);
            proof {
                let st = run_scan(data@, *c);
                assert(records.deep_view() =~~= st.records.push(st.rec.push(st.field)));
            }
            Result::Ok(records)
        },
        ScanMode::AfterCr => Result::Ok(records),
        ScanMode::Failed(e) => Result::Err(e),
    }
}

} // verus!
