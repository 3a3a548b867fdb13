//! The flat bytecode stream and small byte utilities.
//!
//! A program travels as a flat sequence of self-delimiting records: each
//! instruction's encoding is prefixed with one byte counting the bytes that
//! follow for that record. [`encode_program`] produces the stream,
//! [`split_bytes_by_size`] cuts it back into per-instruction encodings, and
//! [`create_program`] decodes those into instructions.

use vstd::prelude::*;
use crate::error::MikuError;
use crate::inst::{lemma_inst_bytes_round_trip, spec_inst_decode, spec_inst_encode, Inst};

verus! {

/// The same bytes, checked to be exactly the expected count.
///
/// Fails with [`MikuError::BytesConversionError`] whenever the length is
/// off, the error byte readers report for a malformed payload.
pub fn convert_bytes(bytes: &[u8], expected_len: usize) -> (r: Result<Vec<u8>, MikuError>)
    ensures
        bytes@.len() == expected_len <==> r is Ok,
        r matches Ok(v) ==> v@ == bytes@,
        r matches Err(e) ==> e == MikuError::BytesConversionError,
{
    if bytes.len() == expected_len {
        Ok(vstd::slice::slice_to_vec(bytes))
    } else {
        Err(MikuError::BytesConversionError)
    }
}

/// The records of a self-delimiting byte stream: each record is one length
/// byte and then that many bytes, repeated until the stream is exhausted.
/// A record cut short by the end of the stream is an error.
pub open spec fn spec_split(s: Seq<u8>) -> Result<Seq<Seq<u8>>, MikuError>
    decreases s.len(),
{
    if s.len() == 0 {
        Ok(Seq::empty())
    } else if s.len() < 1 + s[0] {
        Err(MikuError::BytesConversionError)
    } else {
        match spec_split(s.skip(1 + s[0])) {
            Err(e) => Err(e),
            Ok(rest) => Ok(seq![s.subrange(1, 1 + s[0])] + rest),
        }
    }
}

/// Cuts a flat bytecode stream into its per-instruction records, dropping
/// the length prefixes. Fails with [`MikuError::BytesConversionError`] when
/// the final record promises more bytes than the stream holds.
pub fn split_bytes_by_size(bytes: &[u8]) -> (r: Result<Vec<Vec<u8>>, MikuError>)
    ensures
        match spec_split(bytes@) {
            Ok(chunks) => r matches Ok(v) && v.deep_view() == chunks,
            Err(e) => r == Err::<Vec<Vec<u8>>, MikuError>(e),
        },
{
    let mut result: Vec<Vec<u8>> = Vec::new();
    let mut start: usize = 0;
    proof {
        assert(bytes@.skip(0) =~= bytes@);
        assert(result.deep_view() =~~= Seq::<Seq<u8>>::empty());
        match spec_split(bytes@) {
            Ok(rest) => {
                assert(Seq::<Seq<u8>>::empty() + rest =~~= rest);
            },
            Err(_) => {},
        }
    }
    while start < bytes.len()
        invariant
            start <= bytes@.len(),
            match spec_split(bytes@.skip(start as int)) {
                Ok(rest) => spec_split(bytes@) == Ok::<Seq<Seq<u8>>, MikuError>(
                    result.deep_view() + rest,
                ),
                Err(e) => spec_split(bytes@) == Err::<Seq<Seq<u8>>, MikuError>(e),
            },
        decreases bytes@.len() - start,
    {
        let ghost pre = bytes@.skip(start as int);
        let ghost old_dv = result.deep_view();
        let n = bytes[start] as usize;
        if bytes.len() - start - 1 < n {
            assert(pre.len() < 1 + pre[0]);
            return Err(MikuError::BytesConversionError);
        }
        let chunk = vstd::slice::slice_to_vec(&bytes[start + 1..start + 1 + n]);
        result.push(chunk);
        proof {
            assert(pre.skip(1 + pre[0]) =~= bytes@.skip(start as int + 1 + n as int));
            assert(pre.subrange(1, 1 + pre[0]) =~= chunk@);
            assert(result.deep_view() =~~= old_dv + seq![chunk@]);
            match spec_split(bytes@.skip(start as int + 1 + n as int)) {
                Ok(rest2) => {
                    assert(old_dv + (seq![chunk@] + rest2) =~~= (old_dv + seq![chunk@]) + rest2);
                },
                Err(_) => {},
            }
        }
        start = start + 1 + n;
    }
    proof {
        assert(bytes@.skip(start as int) =~= Seq::<u8>::empty());
        assert(result.deep_view() + Seq::<Seq<u8>>::empty() =~~= result.deep_view());
    }
    Ok(result)
}

/// An instruction's unframed encoding is between one and twenty bytes, so
/// it always fits behind a one-byte length prefix.
pub proof fn lemma_inst_encode_len(i: Inst)
    ensures
        1 <= spec_inst_encode(i).len() <= 20,
{
    match i {
        Inst::Push(c) => {
            crate::types::lemma_to_bytes_length(c);
        },
        Inst::Def(c, _) => {
            crate::types::lemma_to_bytes_length(c);
        },
        Inst::SetReg(_, op2, _) => {
            match op2 {
                crate::inst::SetOperand::Value(c) => {
                    crate::types::lemma_to_bytes_length(c);
                },
                crate::inst::SetOperand::Register(_) => {},
            }
        },
        _ => {},
    }
}

/// The flat byte stream of a program: each instruction's encoding behind a
/// one-byte length prefix, concatenated in order with no header.
pub open spec fn spec_program_bytes(p: Seq<Inst>) -> Seq<u8>
    decreases p.len(),
{
    if p.len() == 0 {
        Seq::empty()
    } else {
        spec_program_bytes(p.drop_last()) + seq![spec_inst_encode(p.last()).len() as u8]
            + spec_inst_encode(p.last())
    }
}

/// The instructions decoded from a sequence of unframed records, the
/// earliest malformed record's error winning.
pub open spec fn spec_create(cs: Seq<Seq<u8>>) -> Result<Seq<Inst>, MikuError>
    decreases cs.len(),
{
    if cs.len() == 0 {
        Ok(Seq::empty())
    } else {
        match spec_create(cs.drop_last()) {
            Err(e) => Err(e),
            Ok(is) => match spec_inst_decode(cs.last()) {
                Err(e) => Err(e),
                Ok(i) => Ok(is.push(i)),
            },
        }
    }
}

/// Once some prefix of the records fails to decode, the whole sequence
/// fails with that prefix's error.
proof fn lemma_create_prefix_error(cs: Seq<Seq<u8>>, k: int, e: MikuError)
    requires
        0 <= k <= cs.len(),
        spec_create(cs.take(k)) == Err::<Seq<Inst>, MikuError>(e),
    ensures
        spec_create(cs) == Err::<Seq<Inst>, MikuError>(e),
    decreases cs.len(),
{
    if k == cs.len() {
        assert(cs.take(k) =~= cs);
    } else {
        assert(cs.drop_last().take(k) =~= cs.take(k));
        lemma_create_prefix_error(cs.drop_last(), k, e);
    }
}

/// Frames a program as a flat byte stream: for each instruction, one byte
/// holding the length of its encoding, then the encoding itself.
pub fn encode_program(program: &Vec<Inst>) -> (r: Vec<u8>)
    ensures
        r@ == spec_program_bytes(program@),
{
    let mut out: Vec<u8> = Vec::new();
    let mut i: usize = 0;
    proof {
        assert(program@.take(0) =~= Seq::<Inst>::empty());
    }
    while i < program.len()
        invariant
            i <= program@.len(),
            out@ == spec_program_bytes(program@.take(i as int)),
        decreases program@.len() - i,
    {
        let mut body = program[i].encode();
        proof {
            lemma_inst_encode_len(program@[i as int]);
        }
        out.push(body.len() as u8);
        out.append(&mut body);
        proof {
            assert(program@.take(i as int + 1).drop_last() =~= program@.take(i as int));
            assert(out@ =~= spec_program_bytes(program@.take(i as int + 1)));
        }
        i = i + 1;
    }
    proof {
        assert(program@.take(program@.len() as int) =~= program@);
    }
    out
}

/// Decodes each unframed record into an instruction, failing on the first
/// record that is no instruction.
pub fn create_program(split_bytes: &Vec<Vec<u8>>) -> (r: Result<Vec<Inst>, MikuError>)
    ensures
        match spec_create(split_bytes.deep_view()) {
            Ok(is) => r matches Ok(v) && v@ == is,
            Err(e) => r == Err::<Vec<Inst>, MikuError>(e),
        },
{
    let ghost dv = split_bytes.deep_view();
    let mut out: Vec<Inst> = Vec::new();
    let mut i: usize = 0;
    proof {
        assert(dv.take(0) =~= Seq::<Seq<u8>>::empty());
    }
    while i < split_bytes.len()
        invariant
            i <= dv.len(),
            dv == split_bytes.deep_view(),
            dv.len() == split_bytes@.len(),
            spec_create(dv.take(i as int)) == Ok::<Seq<Inst>, MikuError>(out@),
        decreases dv.len() - i,
    {
        proof {
            assert(dv[i as int] =~= split_bytes@[i as int]@);
            assert(dv.take(i as int + 1).drop_last() =~= dv.take(i as int));
        }
        match Inst::decode(split_bytes[i].as_slice()) {
            Ok(inst) => {
                out.push(inst);
            },
            Err(e) => {
                proof {
                    lemma_create_prefix_error(dv, i as int + 1, e);
                }
                return Err(e);
            },
        }
        i = i + 1;
    }
    proof {
        assert(dv.take(dv.len() as int) =~= dv);
    }
    Ok(out)
}

/// The per-instruction encodings of a program, in order.
pub open spec fn spec_encodings(p: Seq<Inst>) -> Seq<Seq<u8>>
    decreases p.len(),
{
    if p.len() == 0 {
        Seq::empty()
    } else {
        spec_encodings(p.drop_last()).push(spec_inst_encode(p.last()))
    }
}

/// The encodings seen from the front: the first instruction's encoding,
/// then the encodings of the rest.
proof fn lemma_encodings_front(p: Seq<Inst>)
    requires
        p.len() > 0,
    ensures
        spec_encodings(p) == seq![spec_inst_encode(p[0])] + spec_encodings(p.skip(1)),
    decreases p.len(),
{
    if p.len() == 1 {
        assert(p.drop_last() =~= Seq::<Inst>::empty());
        assert(p.skip(1) =~= Seq::<Inst>::empty());
        assert(spec_encodings(p.drop_last()).push(spec_inst_encode(p.last())) =~= seq![
            spec_inst_encode(p[0]),
        ] + spec_encodings(p.skip(1)));
    } else {
        lemma_encodings_front(p.drop_last());
        assert(p.drop_last()[0] == p[0]);
        assert(p.skip(1).drop_last() =~= p.drop_last().skip(1));
        assert(p.skip(1).last() == p.last());
        assert(spec_encodings(p.drop_last()).push(spec_inst_encode(p.last())) =~= seq![
            spec_inst_encode(p[0]),
        ] + spec_encodings(p.drop_last().skip(1)).push(spec_inst_encode(p.skip(1).last())));
    }
}

/// Splitting the framed stream of a program gives back exactly the
/// per-instruction encodings, in order.
pub proof fn lemma_split_of_program_bytes(p: Seq<Inst>)
    ensures
        spec_split(spec_program_bytes(p)) == Ok::<Seq<Seq<u8>>, MikuError>(spec_encodings(p)),
    decreases p.len(),
{
    let s = spec_program_bytes(p);
    let bodies = spec_encodings(p);
    if p.len() == 0 {
    } else {
        lemma_program_bytes_front(p);
        lemma_encodings_front(p);
        let body = spec_inst_encode(p[0]);
        lemma_inst_encode_len(p[0]);
        lemma_split_of_program_bytes(p.skip(1));
        assert(s[0] == body.len() as u8);
        assert(s.len() >= 1 + body.len());
        assert(s.subrange(1, 1 + s[0]) =~= body);
        assert(s.skip(1 + s[0]) =~= spec_program_bytes(p.skip(1)));
    }
}

/// The framed stream seen from the front: the first instruction's record,
/// then the stream of the rest.
proof fn lemma_program_bytes_front(p: Seq<Inst>)
    requires
        p.len() > 0,
    ensures
        spec_program_bytes(p) == seq![spec_inst_encode(p[0]).len() as u8] + spec_inst_encode(p[0])
            + spec_program_bytes(p.skip(1)),
    decreases p.len(),
{
    if p.len() == 1 {
        assert(p.drop_last() =~= Seq::<Inst>::empty());
        assert(p.skip(1) =~= Seq::<Inst>::empty());
        assert(spec_program_bytes(p.drop_last()) + seq![spec_inst_encode(p.last()).len() as u8]
            + spec_inst_encode(p.last()) =~= seq![spec_inst_encode(p[0]).len() as u8]
            + spec_inst_encode(p[0]) + spec_program_bytes(p.skip(1)));
    } else {
        lemma_program_bytes_front(p.drop_last());
        assert(p.drop_last()[0] == p[0]);
        assert(p.skip(1).drop_last() =~= p.drop_last().skip(1));
        assert(p.skip(1).last() == p.last());
        assert(spec_program_bytes(p.drop_last()) + seq![spec_inst_encode(p.last()).len() as u8]
            + spec_inst_encode(p.last()) =~= seq![spec_inst_encode(p[0]).len() as u8]
            + spec_inst_encode(p[0]) + (spec_program_bytes(p.skip(1).drop_last()) + seq![
            spec_inst_encode(p.skip(1).last()).len() as u8,
        ] + spec_inst_encode(p.skip(1).last())));
    }
}

/// Appending one well-formed record to records that already decode extends
/// the decoded program by that one instruction.
proof fn lemma_create_push_ok(cs: Seq<Seq<u8>>, is: Seq<Inst>, c: Seq<u8>, i: Inst)
    requires
        spec_create(cs) == Ok::<Seq<Inst>, MikuError>(is),
        spec_inst_decode(c) == Ok::<Inst, MikuError>(i),
    ensures
        spec_create(cs.push(c)) == Ok::<Seq<Inst>, MikuError>(is.push(i)),
{
    assert(cs.push(c).drop_last() =~= cs);
    assert(cs.push(c).last() == c);
}

/// Decoding the per-instruction encodings of a program gives back exactly
/// the program: the stream-level round trip is the identity.
pub proof fn lemma_create_of_encodings(p: Seq<Inst>)
    ensures
        spec_create(spec_encodings(p)) == Ok::<Seq<Inst>, MikuError>(p),
    decreases p.len(),
{
    if p.len() == 0 {
        assert(p =~= Seq::<Inst>::empty());
    } else {
        lemma_create_of_encodings(p.drop_last());
        lemma_inst_bytes_round_trip(p.last());
        lemma_create_push_ok(
            spec_encodings(p.drop_last()),
            p.drop_last(),
            spec_inst_encode(p.last()),
            p.last(),
        );
        assert(p.drop_last().push(p.last()) =~= p);
    }
}

} // verus!
