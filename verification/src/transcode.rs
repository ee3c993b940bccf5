//! The transcoding operation: parse a record stream under the input
//! convention, re-serialize every record, in order and unaltered, under
//! the output convention.

use vstd::prelude::*;

use crate::convention::{InputConvention, OutputConvention};
use crate::emit::{encode_records, write_record};
use crate::scan::{parse_records, parse_spec, ParseError};

verus! {

/// What transcoding yields: the records of `data` under `rc`, re-serialized
/// under `wc`; or the first parse error, and no output.
pub open spec fn transcode_spec(
    data: Seq<u8>,
    rc: InputConvention,
    wc: OutputConvention,
) -> Result<Seq<u8>, ParseError> {
    match parse_spec(data, rc) {
        Result::Ok(recs) => Result::Ok(encode_records(recs, wc)),
        Result::Err(e) => Result::Err(e),
    }
}

/// Transcode a whole record stream: succeeds with exactly the bytes of
/// [`transcode_spec`] if and only if `data` parses under `rc`, and fails
/// with the parse error otherwise.
pub fn transcode(data: &Vec<u8>, rc: &InputConvention, wc: &OutputConvention) -> (r: Result<
    Vec<u8>,
    ParseError,
>)
    ensures
        r is Ok <==> transcode_spec(data@, *rc, *wc) is Ok,
        r is Ok ==> r->Ok_0@ == transcode_spec(data@, *rc, *wc)->Ok_0,
        r is Err ==> r->Err_0 == transcode_spec(data@, *rc, *wc)->Err_0,
{
    let recs = match parse_records(data, rc) {
        Result::Ok(recs) => recs,
        Result::Err(e) => {
            return Result::Err(e);
        },
    };
    let ghost rseq = parse_spec(data@, *rc)->Ok_0;
    let mut out: Vec<u8> = Vec::new();
    let mut i: usize = 0;
    while i < recs.len()
        invariant
            i <= recs.len(),
            recs.deep_view() == rseq,
            out@ == encode_records(rseq.take(i as int), *wc),
        decreases recs.len() - i,
    {
        proof {
            assert(rseq.take(i + 1).drop_last() =~= rseq.take(i as int));
            assert(rseq.take(i + 1).last() == rseq[i as int]);
            assert(recs@[i as int].deep_view() == rseq[i as int]);
        }
        write_record(&mut out, &recs[i], wc);
        i += 1;
        proof {
            assert(out@ =~= encode_records(rseq.take(i as int), *wc));
        }
    }
    proof {
        assert(rseq.take(rseq.len() as int) =~= rseq);
    }
    Result::Ok(out)
}

} // verus!
