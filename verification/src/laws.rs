//! The laws the transcoder obeys: serialized output parses back to exactly
//! the records it was written from, record and field counts are preserved,
//! transcoding its own output changes nothing, and the escape-byte
//! discipline never doubles a quote.

use vstd::prelude::*;

use crate::convention::{read_convention_of, InputConvention, OutputConvention, Terminator};
use crate::emit::{
    encode_byte, encode_content, encode_field, encode_fields, encode_record, encode_records,
    escape_byte_of, field_is_quoted, field_must_quote, is_special_byte, is_terminator_byte,
    terminator_bytes,
};
use crate::scan::{
    end_field, finish, init_state, parse_spec, run_from, run_scan, step, with_mode, ParseError,
    ScanMode, ScanState,
};
use crate::transcode::transcode_spec;

verus! {

/// A convention whose output reads back unambiguously: the quote, the
/// delimiter and the escape byte are pairwise distinct and none of them is
/// a terminator byte.
pub open spec fn unambiguous(c: OutputConvention) -> bool {
    &&& c.quote != c.delimiter
    &&& !is_terminator_byte(c.quote, c.terminator)
    &&& !is_terminator_byte(c.delimiter, c.terminator)
    &&& (c.escape is Prefix ==> {
        &&& escape_byte_of(c) != c.quote
        &&& escape_byte_of(c) != c.delimiter
        &&& !is_terminator_byte(escape_byte_of(c), c.terminator)
    })
}

/// Every record has at least one field.
pub open spec fn records_nonempty(rs: Seq<Seq<Seq<u8>>>) -> bool {
    forall|i: int| 0 <= i < rs.len() ==> rs[i].len() >= 1
}

/// Reading a concatenation is reading one part after the other.
proof fn lemma_run_from_append(st: ScanState, s1: Seq<u8>, s2: Seq<u8>, c: InputConvention)
    ensures
        run_from(st, s1 + s2, c) == run_from(run_from(st, s1, c), s2, c),
    decreases s2.len(),
{
    if s2.len() == 0 {
        assert(s1 + s2 =~= s1);
    } else {
        lemma_run_from_append(st, s1, s2.drop_last(), c);
        assert((s1 + s2).drop_last() =~= s1 + s2.drop_last());
        assert((s1 + s2).last() == s2.last());
    }
}

/// Reading a single byte is one step.
proof fn lemma_run_one(st: ScanState, b: u8, c: InputConvention)
    ensures
        run_from(st, seq![b], c) == step(st, b, c),
{
    assert(run_from(st, Seq::<u8>::empty(), c) == st);
    assert(seq![b].drop_last() =~= Seq::<u8>::empty());
    assert(seq![b].last() == b);
}

/// Reading two bytes is two steps.
proof fn lemma_run_two(st: ScanState, b1: u8, b2: u8, c: InputConvention)
    ensures
        run_from(st, seq![b1, b2], c) == step(step(st, b1, c), b2, c),
{
    assert(seq![b1, b2].drop_last() =~= seq![b1]);
    assert(seq![b1, b2].last() == b2);
    lemma_run_one(st, b1, c);
    lemma_run_from_append(st, seq![b1], seq![b2], c);
    lemma_run_one(step(st, b1, c), b2, c);
    assert(seq![b1] + seq![b2] =~= seq![b1, b2]);
}

/// An unquoted field's raw bytes are appended to the field in progress.
proof fn lemma_scan_raw(st: ScanState, f: Seq<u8>, c: OutputConvention)
    requires
        st.mode == ScanMode::Unquoted,
        forall|i: int| 0 <= i < f.len() ==> !is_special_byte(f[i], c),
    ensures
        run_from(st, f, read_convention_of(c)) == (ScanState {
            records: st.records,
            rec: st.rec,
            field: st.field + f,
            mode: ScanMode::Unquoted,
        }),
    decreases f.len(),
{
    let rc = read_convention_of(c);
    if f.len() == 0 {
        assert(st.field + f =~= st.field);
        assert(run_from(st, f, rc) =~~= (ScanState {
            records: st.records,
            rec: st.rec,
            field: st.field + f,
            mode: ScanMode::Unquoted,
        }));
    } else {
        assert forall|i: int| 0 <= i < f.drop_last().len() implies !is_special_byte(
            f.drop_last()[i],
            c,
        ) by {
            assert(f.drop_last()[i] == f[i]);
        }
        lemma_scan_raw(st, f.drop_last(), c);
        let b = f.last();
        assert(f[f.len() - 1] == b);
        assert(!is_special_byte(b, c));
        assert((st.field + f.drop_last()).push(b) =~= st.field + f);
        assert(run_from(st, f, rc) =~~= (ScanState {
            records: st.records,
            rec: st.rec,
            field: st.field + f,
            mode: ScanMode::Unquoted,
        }));
    }
}

/// Escaped quoted content is appended, byte for byte, to the field in
/// progress, and the parser stays inside the quoted field.
proof fn lemma_scan_quoted_content(st: ScanState, f: Seq<u8>, c: OutputConvention)
    requires
        st.mode == ScanMode::Quoted,
        unambiguous(c),
    ensures
        run_from(st, encode_content(f, c), read_convention_of(c)) == (ScanState {
            records: st.records,
            rec: st.rec,
            field: st.field + f,
            mode: ScanMode::Quoted,
        }),
    decreases f.len(),
{
    let rc = read_convention_of(c);
    if f.len() == 0 {
        assert(st.field + f =~= st.field);
        assert(run_from(st, encode_content(f, c), rc) =~~= (ScanState {
            records: st.records,
            rec: st.rec,
            field: st.field + f,
            mode: ScanMode::Quoted,
        }));
    } else {
        lemma_scan_quoted_content(st, f.drop_last(), c);
        let mid = run_from(st, encode_content(f.drop_last(), c), rc);
        let b = f.last();
        let eb = encode_byte(b, c);
        lemma_run_from_append(st, encode_content(f.drop_last(), c), eb, rc);
        if eb.len() == 2 {
            lemma_run_two(mid, eb[0], eb[1], rc);
            assert(eb =~= seq![eb[0], eb[1]]);
        } else {
            lemma_run_one(mid, eb[0], rc);
            assert(eb =~= seq![eb[0]]);
        }
        assert((st.field + f.drop_last()).push(b) =~= st.field + f);
        assert(run_from(st, encode_content(f, c), rc) =~~= (ScanState {
            records: st.records,
            rec: st.rec,
            field: st.field + f,
            mode: ScanMode::Quoted,
        }));
    }
}

/// One serialized field, read from the start of a field, becomes the field
/// in progress, closed exactly when it was quoted.
proof fn lemma_scan_field(st: ScanState, f: Seq<u8>, c: OutputConvention)
    requires
        st.mode == ScanMode::Unquoted,
        st.field.len() == 0,
        unambiguous(c),
    ensures
        run_from(st, encode_field(f, c), read_convention_of(c)) == (ScanState {
            records: st.records,
            rec: st.rec,
            field: f,
            mode: if field_is_quoted(f, c) {
                ScanMode::QuoteEnd
            } else {
                ScanMode::Unquoted
            },
        }),
{
    let rc = read_convention_of(c);
    if field_is_quoted(f, c) {
        let open_q = seq![c.quote];
        let content = encode_content(f, c);
        lemma_run_from_append(st, open_q + content, open_q, rc);
        lemma_run_from_append(st, open_q, content, rc);
        lemma_run_one(st, c.quote, rc);
        let st1 = step(st, c.quote, rc);
        assert(st1 =~~= with_mode(st, ScanMode::Quoted));
        lemma_scan_quoted_content(with_mode(st, ScanMode::Quoted), f, c);
        let st2 = run_from(st1, content, rc);
        assert(st.field + f =~= f);
        lemma_run_one(st2, c.quote, rc);
        assert(encode_field(f, c) == (open_q + content) + open_q);
        assert(run_from(st, encode_field(f, c), rc) =~~= (ScanState {
            records: st.records,
            rec: st.rec,
            field: f,
            mode: ScanMode::QuoteEnd,
        }));
    } else {
        assert(!field_must_quote(f, c));
        assert forall|i: int| 0 <= i < f.len() implies !is_special_byte(f[i], c) by {
            assert(!(exists|j: int| 0 <= j < f.len() && is_special_byte(f[j], c)));
        }
        lemma_scan_raw(st, f, c);
        assert(st.field + f =~= f);
    }
}

/// A record's serialized fields, read from the start of a record, become
/// the fields of the record in progress.
proof fn lemma_scan_fields(st: ScanState, fields: Seq<Seq<u8>>, c: OutputConvention)
    requires
        st.mode == ScanMode::Unquoted,
        st.field.len() == 0,
        fields.len() >= 1,
        unambiguous(c),
    ensures
        run_from(st, encode_fields(fields, c), read_convention_of(c)) == (ScanState {
            records: st.records,
            rec: st.rec + fields.drop_last(),
            field: fields.last(),
            mode: if field_is_quoted(fields.last(), c) {
                ScanMode::QuoteEnd
            } else {
                ScanMode::Unquoted
            },
        }),
    decreases fields.len(),
{
    let rc = read_convention_of(c);
    if fields.len() == 1 {
        lemma_scan_field(st, fields[0], c);
        assert(st.rec + fields.drop_last() =~= st.rec);
        assert(fields.last() == fields[0]);
    } else {
        lemma_scan_fields(st, fields.drop_last(), c);
        let front = encode_fields(fields.drop_last(), c);
        let mid = run_from(st, front, rc);
        lemma_run_from_append(st, front + seq![c.delimiter], encode_field(fields.last(), c), rc);
        lemma_run_from_append(st, front, seq![c.delimiter], rc);
        lemma_run_one(mid, c.delimiter, rc);
        let st2 = step(mid, c.delimiter, rc);
        assert(st2 =~~= end_field(mid));
        assert(st2.rec =~= st.rec + fields.drop_last());
        lemma_scan_field(st2, fields.last(), c);
        assert(encode_fields(fields, c) == (front + seq![c.delimiter]) + encode_field(
            fields.last(),
            c,
        ));
    }
}

/// One serialized record, read from a fresh record boundary, joins the
/// finished records whole, and the parser is back at a record boundary.
proof fn lemma_scan_record(st: ScanState, fields: Seq<Seq<u8>>, c: OutputConvention)
    requires
        st.mode == ScanMode::Unquoted,
        st.field.len() == 0,
        st.rec.len() == 0,
        fields.len() >= 1,
        unambiguous(c),
    ensures
        run_from(st, encode_record(fields, c), read_convention_of(c)) == (ScanState {
            records: st.records.push(fields),
            rec: Seq::empty(),
            field: Seq::empty(),
            mode: ScanMode::Unquoted,
        }),
{
    let rc = read_convention_of(c);
    lemma_scan_fields(st, fields, c);
    let body = encode_fields(fields, c);
    let mid = run_from(st, body, rc);
    lemma_run_from_append(st, body, terminator_bytes(c.terminator), rc);
    assert(st.rec + fields.drop_last() =~= fields.drop_last());
    assert(mid.rec.push(mid.field) =~= fields);
    match c.terminator {
        Terminator::Newline => {
            lemma_run_one(mid, 10, rc);
            assert(run_from(st, encode_record(fields, c), rc) =~~= (ScanState {
                records: st.records.push(fields),
                rec: Seq::empty(),
                field: Seq::empty(),
                mode: ScanMode::Unquoted,
            }));
        },
        Terminator::Crlf => {
            lemma_run_two(mid, 13, 10, rc);
            assert(run_from(st, encode_record(fields, c), rc) =~~= (ScanState {
                records: st.records.push(fields),
                rec: Seq::empty(),
                field: Seq::empty(),
                mode: ScanMode::Unquoted,
            }));
        },
        Terminator::Byte(b) => {
            lemma_run_one(mid, b, rc);
            assert(run_from(st, encode_record(fields, c), rc) =~~= (ScanState {
                records: st.records.push(fields),
                rec: Seq::empty(),
                field: Seq::empty(),
                mode: ScanMode::Unquoted,
            }));
        },
    }
}

/// A serialized record stream, read from a record boundary, appends all
/// its records to the finished records.
proof fn lemma_scan_records(st: ScanState, recs: Seq<Seq<Seq<u8>>>, c: OutputConvention)
    requires
        st.mode == ScanMode::Unquoted,
        st.field.len() == 0,
        st.rec.len() == 0,
        unambiguous(c),
        records_nonempty(recs),
    ensures
        run_from(st, encode_records(recs, c), read_convention_of(c)) == (ScanState {
            records: st.records + recs,
            rec: Seq::empty(),
            field: Seq::empty(),
            mode: ScanMode::Unquoted,
        }),
    decreases recs.len(),
{
    let rc = read_convention_of(c);
    if recs.len() == 0 {
        assert(st.records + recs =~= st.records);
        assert(run_from(st, encode_records(recs, c), rc) =~~= (ScanState {
            records: st.records + recs,
            rec: Seq::empty(),
            field: Seq::empty(),
            mode: ScanMode::Unquoted,
        }));
    } else {
        assert forall|i: int| 0 <= i < recs.drop_last().len() implies recs.drop_last()[i].len()
            >= 1 by {
            assert(recs.drop_last()[i] == recs[i]);
        }
        lemma_scan_records(st, recs.drop_last(), c);
        let front = encode_records(recs.drop_last(), c);
        let mid = run_from(st, front, rc);
        lemma_run_from_append(st, front, encode_record(recs.last(), c), rc);
        assert(recs[recs.len() - 1] == recs.last());
        assert(recs.last().len() >= 1);
        lemma_scan_record(mid, recs.last(), c);
        assert((st.records + recs.drop_last()).push(recs.last()) =~= st.records + recs);
    }
}

/// Content round-trip: re-parsing serialized output under the convention
/// it was written with yields exactly the records it was written from —
/// every field byte-identical, whatever bytes the fields hold.
pub proof fn lemma_round_trip(recs: Seq<Seq<Seq<u8>>>, c: OutputConvention)
    requires
        unambiguous(c),
        records_nonempty(recs),
    ensures
        parse_spec(encode_records(recs, c), read_convention_of(c)) == Result::<
            Seq<Seq<Seq<u8>>>,
            ParseError,
        >::Ok(recs),
{
    lemma_scan_records(init_state(), recs, c);
    assert(Seq::<Seq<Seq<u8>>>::empty() + recs =~= recs);
}

/// Record and field count preservation: serialized output parses back to
/// as many records as were written, each with as many fields as the
/// record it was written from.
pub proof fn lemma_count_preservation(recs: Seq<Seq<Seq<u8>>>, c: OutputConvention)
    requires
        unambiguous(c),
        records_nonempty(recs),
    ensures
        parse_spec(encode_records(recs, c), read_convention_of(c)) is Ok,
        parse_spec(encode_records(recs, c), read_convention_of(c))->Ok_0.len() == recs.len(),
        forall|i: int| 0 <= i < recs.len() ==> parse_spec(
            encode_records(recs, c),
            read_convention_of(c),
        )->Ok_0[i].len() == recs[i].len(),
{
    lemma_round_trip(recs, c);
}

/// Every record the parser finishes has at least one field.
proof fn lemma_run_from_records_nonempty(st: ScanState, data: Seq<u8>, c: InputConvention)
    requires
        records_nonempty(st.records),
    ensures
        records_nonempty(run_from(st, data, c).records),
    decreases data.len(),
{
    if data.len() > 0 {
        lemma_run_from_records_nonempty(st, data.drop_last(), c);
        let mid = run_from(st, data.drop_last(), c);
        let post = step(mid, data.last(), c);
        assert forall|i: int| 0 <= i < post.records.len() implies post.records[i].len() >= 1 by {
            if i < mid.records.len() {
                assert(mid.records[i].len() >= 1);
            }
        }
    }
}

/// Every record that parsing yields has at least one field.
pub proof fn lemma_parsed_records_nonempty(data: Seq<u8>, c: InputConvention)
    ensures
        parse_spec(data, c) is Ok ==> records_nonempty(parse_spec(data, c)->Ok_0),
{
    lemma_run_from_records_nonempty(init_state(), data, c);
    let st = run_scan(data, c);
    let r = finish(st);
    if r is Ok {
        assert forall|i: int| 0 <= i < r->Ok_0.len() implies r->Ok_0[i].len() >= 1 by {
            if i < st.records.len() {
                assert(st.records[i].len() >= 1);
            }
        }
    }
}

/// Idempotence: transcoding output that was produced under a convention,
/// again under that same convention, leaves it byte-identical.
pub proof fn lemma_transcode_idempotent(data: Seq<u8>, c: OutputConvention)
    requires
        unambiguous(c),
        transcode_spec(data, read_convention_of(c), c) is Ok,
    ensures
        transcode_spec(
            transcode_spec(data, read_convention_of(c), c)->Ok_0,
            read_convention_of(c),
            c,
        ) == transcode_spec(data, read_convention_of(c), c),
{
    let rc = read_convention_of(c);
    let recs = parse_spec(data, rc)->Ok_0;
    lemma_parsed_records_nonempty(data, rc);
    lemma_round_trip(recs, c);
}

/// Exclusivity: under the escape-byte discipline, every quote character in
/// escaped content is immediately preceded by the escape byte — an embedded
/// quote is never represented by doubling it.
pub proof fn lemma_escape_suppresses_doubling(f: Seq<u8>, c: OutputConvention)
    requires
        c.escape is Prefix,
        escape_byte_of(c) != c.quote,
    ensures
        forall|i: int|
            0 <= i < encode_content(f, c).len() && #[trigger] encode_content(f, c)[i] == c.quote
                ==> i > 0 && encode_content(f, c)[i - 1] == escape_byte_of(c),
    decreases f.len(),
{
    if f.len() > 0 {
        lemma_escape_suppresses_doubling(f.drop_last(), c);
        let front = encode_content(f.drop_last(), c);
        let eb = encode_byte(f.last(), c);
        let enc = encode_content(f, c);
        assert(enc == front + eb);
        assert forall|i: int| 0 <= i < enc.len() && #[trigger] enc[i] == c.quote implies i > 0
            && enc[i - 1] == escape_byte_of(c) by {
            if i < front.len() {
                assert(front[i] == enc[i]);
                assert(front[i - 1] == enc[i - 1]);
            } else {
                assert(eb[i - front.len()] == enc[i]);
                assert(eb[0] != c.quote);
                if i - front.len() == 1 {
                    assert(enc[i - 1] == eb[0]);
                }
            }
        }
    }
}

} // verus!
