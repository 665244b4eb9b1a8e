//! Tuples, encoded member after member.
use vstd::prelude::*;
use crate::decode::{Decode, Decoding, decode_then, lemma_decoded_then};
use crate::encode::{Encode, encode_then, lemma_encode_then_assoc};
use crate::error::{DecodeError, EncodeError};
use crate::i_stream::IStream;
use crate::model::Model;
use crate::o_stream::{OStream, lemma_wrote_then};
use crate::roundtrip::Roundtrip;

verus! {

impl<T0: Model> Model for (T0,) {
    type M = (T0::M,);

    open spec fn model(&self) -> (T0::M,) {
        (self.0.model(),)
    }

    open spec fn model_wf(m: (T0::M,)) -> bool {
        T0::model_wf(m.0)
    }
}

impl<T0: Encode> Encode for (T0,) {
    open spec fn spec_encode(m: (T0::M,)) -> (Seq<u8>, Option<EncodeError>) {
        T0::spec_encode(m.0)
    }

    fn encode(&self, stream: &mut OStream) -> (r: Result<(), EncodeError>) {
        let ghost s0 = *stream;
        self.0.encode(stream)
    }
}

impl<T0: Decode> Decode for (T0,) {
    open spec fn spec_decode(bytes: Seq<u8>) -> Decoding<(T0::M,)> {
        decode_then(T0::spec_decode(bytes), bytes, |v0: T0::M, r: Seq<u8>| Some((Ok((v0,)), 0)))
    }

    fn decode(stream: &mut IStream) -> (r: Result<(T0,), DecodeError>) {
        let ghost s0 = *stream;
        let r0 = T0::decode(stream);
        proof {
            assert(stream.rest().skip(0) =~= stream.rest());
        }
        let v0 = r0?;
        Ok((v0,))
    }
}

impl<T0: Roundtrip> Roundtrip for (T0,) {
    proof fn lemma_roundtrip(m: (T0::M,), rest: Seq<u8>) {
        T0::lemma_roundtrip(m.0, rest);
        assert((T0::spec_encode(m.0).0 + rest).skip(T0::spec_encode(m.0).0.len() as int) =~= rest);
    }
}

impl<T0: Model, T1: Model> Model for (T0, T1) {
    type M = (T0::M, T1::M);

    open spec fn model(&self) -> (T0::M, T1::M) {
        (self.0.model(), self.1.model())
    }

    open spec fn model_wf(m: (T0::M, T1::M)) -> bool {
        T0::model_wf(m.0) && T1::model_wf(m.1)
    }
}

impl<T0: Encode, T1: Encode> Encode for (T0, T1) {
    open spec fn spec_encode(m: (T0::M, T1::M)) -> (Seq<u8>, Option<EncodeError>) {
        encode_then(T0::spec_encode(m.0), <(T1,) as Encode>::spec_encode((m.1,)))
    }

    fn encode(&self, stream: &mut OStream) -> (r: Result<(), EncodeError>) {
        let ghost s0 = *stream;
        proof {
            let e0 = T0::spec_encode(self.0.model());
            let e1 = T1::spec_encode(self.1.model());
            let l0 = e0;
            let l1 = encode_then(l0, e1);
            let r1 = <(T1,) as Encode>::spec_encode((self.model().1,));
            assert(Self::spec_encode(self.model()) == encode_then(l0, r1));
            assert(r1 == e1);
            assert(Self::spec_encode(self.model()) == l1);
        }
        self.0.encode(stream)?;
        let ghost s1 = *stream;
        let r1 = self.1.encode(stream);
        proof {
            lemma_wrote_then(s0, s1, *stream, T0::spec_encode(self.0.model()).0, T1::spec_encode(self.1.model()).0);
        }
        r1
    }
}

impl<T0: Decode, T1: Decode> Decode for (T0, T1) {
    open spec fn spec_decode(bytes: Seq<u8>) -> Decoding<(T0::M, T1::M)> {
        decode_then(
            T0::spec_decode(bytes),
            bytes,
            |v0: T0::M, r: Seq<u8>|
                match <(T1,) as Decode>::spec_decode(r) {
                    None => None,
                    Some((Err(e), k)) => Some((Err(e), k)),
                    Some((Ok(t), k)) => Some((Ok((v0, t.0)), k)),
                },
        )
    }

    fn decode(stream: &mut IStream) -> (r: Result<(T0, T1), DecodeError>) {
        let ghost s0 = *stream;
        let v0 = T0::decode(stream)?;
        let ghost s1 = *stream;
        let rt = <(T1,) as Decode>::decode(stream);
        proof {
            lemma_decoded_then(s0, s1, *stream, T0::spec_decode(s0.rest()), Ok::<T0, DecodeError>(v0), <(T1,) as Decode>::spec_decode(s1.rest()), rt);
        }
        let t = rt?;
        Ok((v0, t.0))
    }
}

impl<T0: Roundtrip, T1: Roundtrip> Roundtrip for (T0, T1) {
    proof fn lemma_roundtrip(m: (T0::M, T1::M), rest: Seq<u8>) {
        let t = (m.1,);
        let e0 = T0::spec_encode(m.0).0;
        let et = <(T1,) as Encode>::spec_encode(t).0;
        T0::lemma_roundtrip(m.0, et + rest);
        <(T1,) as Roundtrip>::lemma_roundtrip(t, rest);
        assert(e0 + et + rest =~= e0 + (et + rest));
        assert((e0 + (et + rest)).skip(e0.len() as int) =~= et + rest);
    }
}

impl<T0: Model, T1: Model, T2: Model> Model for (T0, T1, T2) {
    type M = (T0::M, T1::M, T2::M);

    open spec fn model(&self) -> (T0::M, T1::M, T2::M) {
        (self.0.model(), self.1.model(), self.2.model())
    }

    open spec fn model_wf(m: (T0::M, T1::M, T2::M)) -> bool {
        T0::model_wf(m.0) && T1::model_wf(m.1) && T2::model_wf(m.2)
    }
}

impl<T0: Encode, T1: Encode, T2: Encode> Encode for (T0, T1, T2) {
    open spec fn spec_encode(m: (T0::M, T1::M, T2::M)) -> (Seq<u8>, Option<EncodeError>) {
        encode_then(T0::spec_encode(m.0), <(T1, T2) as Encode>::spec_encode((m.1, m.2)))
    }

    fn encode(&self, stream: &mut OStream) -> (r: Result<(), EncodeError>) {
        let ghost s0 = *stream;
        proof {
            let e0 = T0::spec_encode(self.0.model());
            let e1 = T1::spec_encode(self.1.model());
            let e2 = T2::spec_encode(self.2.model());
            let l0 = e0;
            let l1 = encode_then(l0, e1);
            let l2 = encode_then(l1, e2);
            let r1 = <(T1, T2) as Encode>::spec_encode((self.model().1, self.model().2));
            let r2 = <(T2,) as Encode>::spec_encode((self.model().2,));
            assert(Self::spec_encode(self.model()) == encode_then(l0, r1));
            assert(r1 == encode_then(e1, r2));
            lemma_encode_then_assoc(l0, e1, r2);
            assert(r2 == e2);
            assert(Self::spec_encode(self.model()) == l2);
        }
        self.0.encode(stream)?;
        let ghost s1 = *stream;
        let r1 = self.1.encode(stream);
        proof {
            lemma_wrote_then(s0, s1, *stream, T0::spec_encode(self.0.model()).0, T1::spec_encode(self.1.model()).0);
        }
        r1?;
        let ghost s2 = *stream;
        let r2 = self.2.encode(stream);
        proof {
            lemma_wrote_then(s0, s2, *stream, encode_then(T0::spec_encode(self.0.model()), T1::spec_encode(self.1.model())).0, T2::spec_encode(self.2.model()).0);
        }
        r2
    }
}

impl<T0: Decode, T1: Decode, T2: Decode> Decode for (T0, T1, T2) {
    open spec fn spec_decode(bytes: Seq<u8>) -> Decoding<(T0::M, T1::M, T2::M)> {
        decode_then(
            T0::spec_decode(bytes),
            bytes,
            |v0: T0::M, r: Seq<u8>|
                match <(T1, T2) as Decode>::spec_decode(r) {
                    None => None,
                    Some((Err(e), k)) => Some((Err(e), k)),
                    Some((Ok(t), k)) => Some((Ok((v0, t.0, t.1)), k)),
                },
        )
    }

    fn decode(stream: &mut IStream) -> (r: Result<(T0, T1, T2), DecodeError>) {
        let ghost s0 = *stream;
        let v0 = T0::decode(stream)?;
        let ghost s1 = *stream;
        let rt = <(T1, T2) as Decode>::decode(stream);
        proof {
            lemma_decoded_then(s0, s1, *stream, T0::spec_decode(s0.rest()), Ok::<T0, DecodeError>(v0), <(T1, T2) as Decode>::spec_decode(s1.rest()), rt);
        }
        let t = rt?;
        Ok((v0, t.0, t.1))
    }
}

impl<T0: Roundtrip, T1: Roundtrip, T2: Roundtrip> Roundtrip for (T0, T1, T2) {
    proof fn lemma_roundtrip(m: (T0::M, T1::M, T2::M), rest: Seq<u8>) {
        let t = (m.1, m.2);
        let e0 = T0::spec_encode(m.0).0;
        let et = <(T1, T2) as Encode>::spec_encode(t).0;
        T0::lemma_roundtrip(m.0, et + rest);
        <(T1, T2) as Roundtrip>::lemma_roundtrip(t, rest);
        assert(e0 + et + rest =~= e0 + (et + rest));
        assert((e0 + (et + rest)).skip(e0.len() as int) =~= et + rest);
    }
}

impl<T0: Model, T1: Model, T2: Model, T3: Model> Model for (T0, T1, T2, T3) {
    type M = (T0::M, T1::M, T2::M, T3::M);

    open spec fn model(&self) -> (T0::M, T1::M, T2::M, T3::M) {
        (self.0.model(), self.1.model(), self.2.model(), self.3.model())
    }

    open spec fn model_wf(m: (T0::M, T1::M, T2::M, T3::M)) -> bool {
        T0::model_wf(m.0) && T1::model_wf(m.1) && T2::model_wf(m.2) && T3::model_wf(m.3)
    }
}

impl<T0: Encode, T1: Encode, T2: Encode, T3: Encode> Encode for (T0, T1, T2, T3) {
    open spec fn spec_encode(m: (T0::M, T1::M, T2::M, T3::M)) -> (Seq<u8>, Option<EncodeError>) {
        encode_then(T0::spec_encode(m.0), <(T1, T2, T3) as Encode>::spec_encode((m.1, m.2, m.3)))
    }

    fn encode(&self, stream: &mut OStream) -> (r: Result<(), EncodeError>) {
        let ghost s0 = *stream;
        proof {
            let e0 = T0::spec_encode(self.0.model());
            let e1 = T1::spec_encode(self.1.model());
            let e2 = T2::spec_encode(self.2.model());
            let e3 = T3::spec_encode(self.3.model());
            let l0 = e0;
            let l1 = encode_then(l0, e1);
            let l2 = encode_then(l1, e2);
            let l3 = encode_then(l2, e3);
            let r1 = <(T1, T2, T3) as Encode>::spec_encode((self.model().1, self.model().2, self.model().3));
            let r2 = <(T2, T3) as Encode>::spec_encode((self.model().2, self.model().3));
            let r3 = <(T3,) as Encode>::spec_encode((self.model().3,));
            assert(Self::spec_encode(self.model()) == encode_then(l0, r1));
            assert(r1 == encode_then(e1, r2));
            lemma_encode_then_assoc(l0, e1, r2);
            assert(r2 == encode_then(e2, r3));
            lemma_encode_then_assoc(l1, e2, r3);
            assert(r3 == e3);
            assert(Self::spec_encode(self.model()) == l3);
        }
        self.0.encode(stream)?;
        let ghost s1 = *stream;
        let r1 = self.1.encode(stream);
        proof {
            lemma_wrote_then(s0, s1, *stream, T0::spec_encode(self.0.model()).0, T1::spec_encode(self.1.model()).0);
        }
        r1?;
        let ghost s2 = *stream;
        let r2 = self.2.encode(stream);
        proof {
            lemma_wrote_then(s0, s2, *stream, encode_then(T0::spec_encode(self.0.model()), T1::spec_encode(self.1.model())).0, T2::spec_encode(self.2.model()).0);
        }
        r2?;
        let ghost s3 = *stream;
        let r3 = self.3.encode(stream);
        proof {
            lemma_wrote_then(s0, s3, *stream, encode_then(encode_then(T0::spec_encode(self.0.model()), T1::spec_encode(self.1.model())), T2::spec_encode(self.2.model())).0, T3::spec_encode(self.3.model()).0);
        }
        r3
    }
}

impl<T0: Decode, T1: Decode, T2: Decode, T3: Decode> Decode for (T0, T1, T2, T3) {
    open spec fn spec_decode(bytes: Seq<u8>) -> Decoding<(T0::M, T1::M, T2::M, T3::M)> {
        decode_then(
            T0::spec_decode(bytes),
            bytes,
            |v0: T0::M, r: Seq<u8>|
                match <(T1, T2, T3) as Decode>::spec_decode(r) {
                    None => None,
                    Some((Err(e), k)) => Some((Err(e), k)),
                    Some((Ok(t), k)) => Some((Ok((v0, t.0, t.1, t.2)), k)),
                },
        )
    }

    fn decode(stream: &mut IStream) -> (r: Result<(T0, T1, T2, T3), DecodeError>) {
        let ghost s0 = *stream;
        let v0 = T0::decode(stream)?;
        let ghost s1 = *stream;
        let rt = <(T1, T2, T3) as Decode>::decode(stream);
        proof {
            lemma_decoded_then(s0, s1, *stream, T0::spec_decode(s0.rest()), Ok::<T0, DecodeError>(v0), <(T1, T2, T3) as Decode>::spec_decode(s1.rest()), rt);
        }
        let t = rt?;
        Ok((v0, t.0, t.1, t.2))
    }
}

impl<T0: Roundtrip, T1: Roundtrip, T2: Roundtrip, T3: Roundtrip> Roundtrip for (T0, T1, T2, T3) {
    proof fn lemma_roundtrip(m: (T0::M, T1::M, T2::M, T3::M), rest: Seq<u8>) {
        let t = (m.1, m.2, m.3);
        let e0 = T0::spec_encode(m.0).0;
        let et = <(T1, T2, T3) as Encode>::spec_encode(t).0;
        T0::lemma_roundtrip(m.0, et + rest);
        <(T1, T2, T3) as Roundtrip>::lemma_roundtrip(t, rest);
        assert(e0 + et + rest =~= e0 + (et + rest));
        assert((e0 + (et + rest)).skip(e0.len() as int) =~= et + rest);
    }
}

impl<T0: Model, T1: Model, T2: Model, T3: Model, T4: Model> Model for (T0, T1, T2, T3, T4) {
    type M = (T0::M, T1::M, T2::M, T3::M, T4::M);

    open spec fn model(&self) -> (T0::M, T1::M, T2::M, T3::M, T4::M) {
        (self.0.model(), self.1.model(), self.2.model(), self.3.model(), self.4.model())
    }

    open spec fn model_wf(m: (T0::M, T1::M, T2::M, T3::M, T4::M)) -> bool {
        T0::model_wf(m.0) && T1::model_wf(m.1) && T2::model_wf(m.2) && T3::model_wf(m.3) && T4::model_wf(m.4)
    }
}

impl<T0: Encode, T1: Encode, T2: Encode, T3: Encode, T4: Encode> Encode for (T0, T1, T2, T3, T4) {
    open spec fn spec_encode(m: (T0::M, T1::M, T2::M, T3::M, T4::M)) -> (Seq<u8>, Option<EncodeError>) {
        encode_then(T0::spec_encode(m.0), <(T1, T2, T3, T4) as Encode>::spec_encode((m.1, m.2, m.3, m.4)))
    }

    fn encode(&self, stream: &mut OStream) -> (r: Result<(), EncodeError>) {
        let ghost s0 = *stream;
        proof {
            let e0 = T0::spec_encode(self.0.model());
            let e1 = T1::spec_encode(self.1.model());
            let e2 = T2::spec_encode(self.2.model());
            let e3 = T3::spec_encode(self.3.model());
            let e4 = T4::spec_encode(self.4.model());
            let l0 = e0;
            let l1 = encode_then(l0, e1);
            let l2 = encode_then(l1, e2);
            let l3 = encode_then(l2, e3);
            let l4 = encode_then(l3, e4);
            let r1 = <(T1, T2, T3, T4) as Encode>::spec_encode((self.model().1, self.model().2, self.model().3, self.model().4));
            let r2 = <(T2, T3, T4) as Encode>::spec_encode((self.model().2, self.model().3, self.model().4));
            let r3 = <(T3, T4) as Encode>::spec_encode((self.model().3, self.model().4));
            let r4 = <(T4,) as Encode>::spec_encode((self.model().4,));
            assert(Self::spec_encode(self.model()) == encode_then(l0, r1));
            assert(r1 == encode_then(e1, r2));
            lemma_encode_then_assoc(l0, e1, r2);
            assert(r2 == encode_then(e2, r3));
            lemma_encode_then_assoc(l1, e2, r3);
            assert(r3 == encode_then(e3, r4));
            lemma_encode_then_assoc(l2, e3, r4);
            assert(r4 == e4);
            assert(Self::spec_encode(self.model()) == l4);
        }
        self.0.encode(stream)?;
        let ghost s1 = *stream;
        let r1 = self.1.encode(stream);
        proof {
            lemma_wrote_then(s0, s1, *stream, T0::spec_encode(self.0.model()).0, T1::spec_encode(self.1.model()).0);
        }
        r1?;
        let ghost s2 = *stream;
        let r2 = self.2.encode(stream);
        proof {
            lemma_wrote_then(s0, s2, *stream, encode_then(T0::spec_encode(self.0.model()), T1::spec_encode(self.1.model())).0, T2::spec_encode(self.2.model()).0);
        }
        r2?;
        let ghost s3 = *stream;
        let r3 = self.3.encode(stream);
        proof {
            lemma_wrote_then(s0, s3, *stream, encode_then(encode_then(T0::spec_encode(self.0.model()), T1::spec_encode(self.1.model())), T2::spec_encode(self.2.model())).0, T3::spec_encode(self.3.model()).0);
        }
        r3?;
        let ghost s4 = *stream;
        let r4 = self.4.encode(stream);
        proof {
            lemma_wrote_then(s0, s4, *stream, encode_then(encode_then(encode_then(T0::spec_encode(self.0.model()), T1::spec_encode(self.1.model())), T2::spec_encode(self.2.model())), T3::spec_encode(self.3.model())).0, T4::spec_encode(self.4.model()).0);
        }
        r4
    }
}

impl<T0: Decode, T1: Decode, T2: Decode, T3: Decode, T4: Decode> Decode for (T0, T1, T2, T3, T4) {
    open spec fn spec_decode(bytes: Seq<u8>) -> Decoding<(T0::M, T1::M, T2::M, T3::M, T4::M)> {
        decode_then(
            T0::spec_decode(bytes),
            bytes,
            |v0: T0::M, r: Seq<u8>|
                match <(T1, T2, T3, T4) as Decode>::spec_decode(r) {
                    None => None,
                    Some((Err(e), k)) => Some((Err(e), k)),
                    Some((Ok(t), k)) => Some((Ok((v0, t.0, t.1, t.2, t.3)), k)),
                },
        )
    }

    fn decode(stream: &mut IStream) -> (r: Result<(T0, T1, T2, T3, T4), DecodeError>) {
        let ghost s0 = *stream;
        let v0 = T0::decode(stream)?;
        let ghost s1 = *stream;
        let rt = <(T1, T2, T3, T4) as Decode>::decode(stream);
        proof {
            lemma_decoded_then(s0, s1, *stream, T0::spec_decode(s0.rest()), Ok::<T0, DecodeError>(v0), <(T1, T2, T3, T4) as Decode>::spec_decode(s1.rest()), rt);
        }
        let t = rt?;
        Ok((v0, t.0, t.1, t.2, t.3))
    }
}

impl<T0: Roundtrip, T1: Roundtrip, T2: Roundtrip, T3: Roundtrip, T4: Roundtrip> Roundtrip for (T0, T1, T2, T3, T4) {
    proof fn lemma_roundtrip(m: (T0::M, T1::M, T2::M, T3::M, T4::M), rest: Seq<u8>) {
        let t = (m.1, m.2, m.3, m.4);
        let e0 = T0::spec_encode(m.0).0;
        let et = <(T1, T2, T3, T4) as Encode>::spec_encode(t).0;
        T0::lemma_roundtrip(m.0, et + rest);
        <(T1, T2, T3, T4) as Roundtrip>::lemma_roundtrip(t, rest);
        assert(e0 + et + rest =~= e0 + (et + rest));
        assert((e0 + (et + rest)).skip(e0.len() as int) =~= et + rest);
    }
}

impl<T0: Model, T1: Model, T2: Model, T3: Model, T4: Model, T5: Model> Model for (T0, T1, T2, T3, T4, T5) {
    type M = (T0::M, T1::M, T2::M, T3::M, T4::M, T5::M);

    open spec fn model(&self) -> (T0::M, T1::M, T2::M, T3::M, T4::M, T5::M) {
        (self.0.model(), self.1.model(), self.2.model(), self.3.model(), self.4.model(), self.5.model())
    }

    open spec fn model_wf(m: (T0::M, T1::M, T2::M, T3::M, T4::M, T5::M)) -> bool {
        T0::model_wf(m.0) && T1::model_wf(m.1) && T2::model_wf(m.2) && T3::model_wf(m.3) && T4::model_wf(m.4) && T5::model_wf(m.5)
    }
}

impl<T0: Encode, T1: Encode, T2: Encode, T3: Encode, T4: Encode, T5: Encode> Encode for (T0, T1, T2, T3, T4, T5) {
    open spec fn spec_encode(m: (T0::M, T1::M, T2::M, T3::M, T4::M, T5::M)) -> (Seq<u8>, Option<EncodeError>) {
        encode_then(T0::spec_encode(m.0), <(T1, T2, T3, T4, T5) as Encode>::spec_encode((m.1, m.2, m.3, m.4, m.5)))
    }

    fn encode(&self, stream: &mut OStream) -> (r: Result<(), EncodeError>) {
        let ghost s0 = *stream;
        proof {
            let e0 = T0::spec_encode(self.0.model());
            let e1 = T1::spec_encode(self.1.model());
            let e2 = T2::spec_encode(self.2.model());
            let e3 = T3::spec_encode(self.3.model());
            let e4 = T4::spec_encode(self.4.model());
            let e5 = T5::spec_encode(self.5.model());
            let l0 = e0;
            let l1 = encode_then(l0, e1);
            let l2 = encode_then(l1, e2);
            let l3 = encode_then(l2, e3);
            let l4 = encode_then(l3, e4);
            let l5 = encode_then(l4, e5);
            let r1 = <(T1, T2, T3, T4, T5) as Encode>::spec_encode((self.model().1, self.model().2, self.model().3, self.model().4, self.model().5));
            let r2 = <(T2, T3, T4, T5) as Encode>::spec_encode((self.model().2, self.model().3, self.model().4, self.model().5));
            let r3 = <(T3, T4, T5) as Encode>::spec_encode((self.model().3, self.model().4, self.model().5));
            let r4 = <(T4, T5) as Encode>::spec_encode((self.model().4, self.model().5));
            let r5 = <(T5,) as Encode>::spec_encode((self.model().5,));
            assert(Self::spec_encode(self.model()) == encode_then(l0, r1));
            assert(r1 == encode_then(e1, r2));
            lemma_encode_then_assoc(l0, e1, r2);
            assert(r2 == encode_then(e2, r3));
            lemma_encode_then_assoc(l1, e2, r3);
            assert(r3 == encode_then(e3, r4));
            lemma_encode_then_assoc(l2, e3, r4);
            assert(r4 == encode_then(e4, r5));
            lemma_encode_then_assoc(l3, e4, r5);
            assert(r5 == e5);
            assert(Self::spec_encode(self.model()) == l5);
        }
        self.0.encode(stream)?;
        let ghost s1 = *stream;
        let r1 = self.1.encode(stream);
        proof {
            lemma_wrote_then(s0, s1, *stream, T0::spec_encode(self.0.model()).0, T1::spec_encode(self.1.model()).0);
        }
        r1?;
        let ghost s2 = *stream;
        let r2 = self.2.encode(stream);
        proof {
            lemma_wrote_then(s0, s2, *stream, encode_then(T0::spec_encode(self.0.model()), T1::spec_encode(self.1.model())).0, T2::spec_encode(self.2.model()).0);
        }
        r2?;
        let ghost s3 = *stream;
        let r3 = self.3.encode(stream);
        proof {
            lemma_wrote_then(s0, s3, *stream, encode_then(encode_then(T0::spec_encode(self.0.model()), T1::spec_encode(self.1.model())), T2::spec_encode(self.2.model())).0, T3::spec_encode(self.3.model()).0);
        }
        r3?;
        let ghost s4 = *stream;
        let r4 = self.4.encode(stream);
        proof {
            lemma_wrote_then(s0, s4, *stream, encode_then(encode_then(encode_then(T0::spec_encode(self.0.model()), T1::spec_encode(self.1.model())), T2::spec_encode(self.2.model())), T3::spec_encode(self.3.model())).0, T4::spec_encode(self.4.model()).0);
        }
        r4?;
        let ghost s5 = *stream;
        let r5 = self.5.encode(stream);
        proof {
            lemma_wrote_then(s0, s5, *stream, encode_then(encode_then(encode_then(encode_then(T0::spec_encode(self.0.model()), T1::spec_encode(self.1.model())), T2::spec_encode(self.2.model())), T3::spec_encode(self.3.model())), T4::spec_encode(self.4.model())).0, T5::spec_encode(self.5.model()).0);
        }
        r5
    }
}

impl<T0: Decode, T1: Decode, T2: Decode, T3: Decode, T4: Decode, T5: Decode> Decode for (T0, T1, T2, T3, T4, T5) {
    open spec fn spec_decode(bytes: Seq<u8>) -> Decoding<(T0::M, T1::M, T2::M, T3::M, T4::M, T5::M)> {
        decode_then(
            T0::spec_decode(bytes),
            bytes,
            |v0: T0::M, r: Seq<u8>|
                match <(T1, T2, T3, T4, T5) as Decode>::spec_decode(r) {
                    None => None,
                    Some((Err(e), k)) => Some((Err(e), k)),
                    Some((Ok(t), k)) => Some((Ok((v0, t.0, t.1, t.2, t.3, t.4)), k)),
                },
        )
    }

    fn decode(stream: &mut IStream) -> (r: Result<(T0, T1, T2, T3, T4, T5), DecodeError>) {
        let ghost s0 = *stream;
        let v0 = T0::decode(stream)?;
        let ghost s1 = *stream;
        let rt = <(T1, T2, T3, T4, T5) as Decode>::decode(stream);
        proof {
            lemma_decoded_then(s0, s1, *stream, T0::spec_decode(s0.rest()), Ok::<T0, DecodeError>(v0), <(T1, T2, T3, T4, T5) as Decode>::spec_decode(s1.rest()), rt);
        }
        let t = rt?;
        Ok((v0, t.0, t.1, t.2, t.3, t.4))
    }
}

impl<T0: Roundtrip, T1: Roundtrip, T2: Roundtrip, T3: Roundtrip, T4: Roundtrip, T5: Roundtrip> Roundtrip for (T0, T1, T2, T3, T4, T5) {
    proof fn lemma_roundtrip(m: (T0::M, T1::M, T2::M, T3::M, T4::M, T5::M), rest: Seq<u8>) {
        let t = (m.1, m.2, m.3, m.4, m.5);
        let e0 = T0::spec_encode(m.0).0;
        let et = <(T1, T2, T3, T4, T5) as Encode>::spec_encode(t).0;
        T0::lemma_roundtrip(m.0, et + rest);
        <(T1, T2, T3, T4, T5) as Roundtrip>::lemma_roundtrip(t, rest);
        assert(e0 + et + rest =~= e0 + (et + rest));
        assert((e0 + (et + rest)).skip(e0.len() as int) =~= et + rest);
    }
}

impl<T0: Model, T1: Model, T2: Model, T3: Model, T4: Model, T5: Model, T6: Model> Model for (T0, T1, T2, T3, T4, T5, T6) {
    type M = (T0::M, T1::M, T2::M, T3::M, T4::M, T5::M, T6::M);

    open spec fn model(&self) -> (T0::M, T1::M, T2::M, T3::M, T4::M, T5::M, T6::M) {
        (self.0.model(), self.1.model(), self.2.model(), self.3.model(), self.4.model(), self.5.model(), self.6.model())
    }

    open spec fn model_wf(m: (T0::M, T1::M, T2::M, T3::M, T4::M, T5::M, T6::M)) -> bool {
        T0::model_wf(m.0) && T1::model_wf(m.1) && T2::model_wf(m.2) && T3::model_wf(m.3) && T4::model_wf(m.4) && T5::model_wf(m.5) && T6::model_wf(m.6)
    }
}

impl<T0: Encode, T1: Encode, T2: Encode, T3: Encode, T4: Encode, T5: Encode, T6: Encode> Encode for (T0, T1, T2, T3, T4, T5, T6) {
    open spec fn spec_encode(m: (T0::M, T1::M, T2::M, T3::M, T4::M, T5::M, T6::M)) -> (Seq<u8>, Option<EncodeError>) {
        encode_then(T0::spec_encode(m.0), <(T1, T2, T3, T4, T5, T6) as Encode>::spec_encode((m.1, m.2, m.3, m.4, m.5, m.6)))
    }

    fn encode(&self, stream: &mut OStream) -> (r: Result<(), EncodeError>) {
        let ghost s0 = *stream;
        proof {
            let e0 = T0::spec_encode(self.0.model());
            let e1 = T1::spec_encode(self.1.model());
            let e2 = T2::spec_encode(self.2.model());
            let e3 = T3::spec_encode(self.3.model());
            let e4 = T4::spec_encode(self.4.model());
            let e5 = T5::spec_encode(self.5.model());
            let e6 = T6::spec_encode(self.6.model());
            let l0 = e0;
            let l1 = encode_then(l0, e1);
            let l2 = encode_then(l1, e2);
            let l3 = encode_then(l2, e3);
            let l4 = encode_then(l3, e4);
            let l5 = encode_then(l4, e5);
            let l6 = encode_then(l5, e6);
            let r1 = <(T1, T2, T3, T4, T5, T6) as Encode>::spec_encode((self.model().1, self.model().2, self.model().3, self.model().4, self.model().5, self.model().6));
            let r2 = <(T2, T3, T4, T5, T6) as Encode>::spec_encode((self.model().2, self.model().3, self.model().4, self.model().5, self.model().6));
            let r3 = <(T3, T4, T5, T6) as Encode>::spec_encode((self.model().3, self.model().4, self.model().5, self.model().6));
            let r4 = <(T4, T5, T6) as Encode>::spec_encode((self.model().4, self.model().5, self.model().6));
            let r5 = <(T5, T6) as Encode>::spec_encode((self.model().5, self.model().6));
            let r6 = <(T6,) as Encode>::spec_encode((self.model().6,));
            assert(Self::spec_encode(self.model()) == encode_then(l0, r1));
            assert(r1 == encode_then(e1, r2));
            lemma_encode_then_assoc(l0, e1, r2);
            assert(r2 == encode_then(e2, r3));
            lemma_encode_then_assoc(l1, e2, r3);
            assert(r3 == encode_then(e3, r4));
            lemma_encode_then_assoc(l2, e3, r4);
            assert(r4 == encode_then(e4, r5));
            lemma_encode_then_assoc(l3, e4, r5);
            assert(r5 == encode_then(e5, r6));
            lemma_encode_then_assoc(l4, e5, r6);
            assert(r6 == e6);
            assert(Self::spec_encode(self.model()) == l6);
        }
        self.0.encode(stream)?;
        let ghost s1 = *stream;
        let r1 = self.1.encode(stream);
        proof {
            lemma_wrote_then(s0, s1, *stream, T0::spec_encode(self.0.model()).0, T1::spec_encode(self.1.model()).0);
        }
        r1?;
        let ghost s2 = *stream;
        let r2 = self.2.encode(stream);
        proof {
            lemma_wrote_then(s0, s2, *stream, encode_then(T0::spec_encode(self.0.model()), T1::spec_encode(self.1.model())).0, T2::spec_encode(self.2.model()).0);
        }
        r2?;
        let ghost s3 = *stream;
        let r3 = self.3.encode(stream);
        proof {
            lemma_wrote_then(s0, s3, *stream, encode_then(encode_then(T0::spec_encode(self.0.model()), T1::spec_encode(self.1.model())), T2::spec_encode(self.2.model())).0, T3::spec_encode(self.3.model()).0);
        }
        r3?;
        let ghost s4 = *stream;
        let r4 = self.4.encode(stream);
        proof {
            lemma_wrote_then(s0, s4, *stream, encode_then(encode_then(encode_then(T0::spec_encode(self.0.model()), T1::spec_encode(self.1.model())), T2::spec_encode(self.2.model())), T3::spec_encode(self.3.model())).0, T4::spec_encode(self.4.model()).0);
        }
        r4?;
        let ghost s5 = *stream;
        let r5 = self.5.encode(stream);
        proof {
            lemma_wrote_then(s0, s5, *stream, encode_then(encode_then(encode_then(encode_then(T0::spec_encode(self.0.model()), T1::spec_encode(self.1.model())), T2::spec_encode(self.2.model())), T3::spec_encode(self.3.model())), T4::spec_encode(self.4.model())).0, T5::spec_encode(self.5.model()).0);
        }
        r5?;
        let ghost s6 = *stream;
        let r6 = self.6.encode(stream);
        proof {
            lemma_wrote_then(s0, s6, *stream, encode_then(encode_then(encode_then(encode_then(encode_then(T0::spec_encode(self.0.model()), T1::spec_encode(self.1.model())), T2::spec_encode(self.2.model())), T3::spec_encode(self.3.model())), T4::spec_encode(self.4.model())), T5::spec_encode(self.5.model())).0, T6::spec_encode(self.6.model()).0);
        }
        r6
    }
}

impl<T0: Decode, T1: Decode, T2: Decode, T3: Decode, T4: Decode, T5: Decode, T6: Decode> Decode for (T0, T1, T2, T3, T4, T5, T6) {
    open spec fn spec_decode(bytes: Seq<u8>) -> Decoding<(T0::M, T1::M, T2::M, T3::M, T4::M, T5::M, T6::M)> {
        decode_then(
            T0::spec_decode(bytes),
            bytes,
            |v0: T0::M, r: Seq<u8>|
                match <(T1, T2, T3, T4, T5, T6) as Decode>::spec_decode(r) {
                    None => None,
                    Some((Err(e), k)) => Some((Err(e), k)),
                    Some((Ok(t), k)) => Some((Ok((v0, t.0, t.1, t.2, t.3, t.4, t.5)), k)),
                },
        )
    }

    fn decode(stream: &mut IStream) -> (r: Result<(T0, T1, T2, T3, T4, T5, T6), DecodeError>) {
        let ghost s0 = *stream;
        let v0 = T0::decode(stream)?;
        let ghost s1 = *stream;
        let rt = <(T1, T2, T3, T4, T5, T6) as Decode>::decode(stream);
        proof {
            lemma_decoded_then(s0, s1, *stream, T0::spec_decode(s0.rest()), Ok::<T0, DecodeError>(v0), <(T1, T2, T3, T4, T5, T6) as Decode>::spec_decode(s1.rest()), rt);
        }
        let t = rt?;
        Ok((v0, t.0, t.1, t.2, t.3, t.4, t.5))
    }
}

impl<T0: Roundtrip, T1: Roundtrip, T2: Roundtrip, T3: Roundtrip, T4: Roundtrip, T5: Roundtrip, T6: Roundtrip> Roundtrip for (T0, T1, T2, T3, T4, T5, T6) {
    proof fn lemma_roundtrip(m: (T0::M, T1::M, T2::M, T3::M, T4::M, T5::M, T6::M), rest: Seq<u8>) {
        let t = (m.1, m.2, m.3, m.4, m.5, m.6);
        let e0 = T0::spec_encode(m.0).0;
        let et = <(T1, T2, T3, T4, T5, T6) as Encode>::spec_encode(t).0;
        T0::lemma_roundtrip(m.0, et + rest);
        <(T1, T2, T3, T4, T5, T6) as Roundtrip>::lemma_roundtrip(t, rest);
        assert(e0 + et + rest =~= e0 + (et + rest));
        assert((e0 + (et + rest)).skip(e0.len() as int) =~= et + rest);
    }
}

impl<T0: Model, T1: Model, T2: Model, T3: Model, T4: Model, T5: Model, T6: Model, T7: Model> Model for (T0, T1, T2, T3, T4, T5, T6, T7) {
    type M = (T0::M, T1::M, T2::M, T3::M, T4::M, T5::M, T6::M, T7::M);

    open spec fn model(&self) -> (T0::M, T1::M, T2::M, T3::M, T4::M, T5::M, T6::M, T7::M) {
        (self.0.model(), self.1.model(), self.2.model(), self.3.model(), self.4.model(), self.5.model(), self.6.model(), self.7.model())
    }

    open spec fn model_wf(m: (T0::M, T1::M, T2::M, T3::M, T4::M, T5::M, T6::M, T7::M)) -> bool {
        T0::model_wf(m.0) && T1::model_wf(m.1) && T2::model_wf(m.2) && T3::model_wf(m.3) && T4::model_wf(m.4) && T5::model_wf(m.5) && T6::model_wf(m.6) && T7::model_wf(m.7)
    }
}

impl<T0: Encode, T1: Encode, T2: Encode, T3: Encode, T4: Encode, T5: Encode, T6: Encode, T7: Encode> Encode for (T0, T1, T2, T3, T4, T5, T6, T7) {
    open spec fn spec_encode(m: (T0::M, T1::M, T2::M, T3::M, T4::M, T5::M, T6::M, T7::M)) -> (Seq<u8>, Option<EncodeError>) {
        encode_then(T0::spec_encode(m.0), <(T1, T2, T3, T4, T5, T6, T7) as Encode>::spec_encode((m.1, m.2, m.3, m.4, m.5, m.6, m.7)))
    }

    fn encode(&self, stream: &mut OStream) -> (r: Result<(), EncodeError>) {
        let ghost s0 = *stream;
        proof {
            let e0 = T0::spec_encode(self.0.model());
            let e1 = T1::spec_encode(self.1.model());
            let e2 = T2::spec_encode(self.2.model());
            let e3 = T3::spec_encode(self.3.model());
            let e4 = T4::spec_encode(self.4.model());
            let e5 = T5::spec_encode(self.5.model());
            let e6 = T6::spec_encode(self.6.model());
            let e7 = T7::spec_encode(self.7.model());
            let l0 = e0;
            let l1 = encode_then(l0, e1);
            let l2 = encode_then(l1, e2);
            let l3 = encode_then(l2, e3);
            let l4 = encode_then(l3, e4);
            let l5 = encode_then(l4, e5);
            let l6 = encode_then(l5, e6);
            let l7 = encode_then(l6, e7);
            let r1 = <(T1, T2, T3, T4, T5, T6, T7) as Encode>::spec_encode((self.model().1, self.model().2, self.model().3, self.model().4, self.model().5, self.model().6, self.model().7));
            let r2 = <(T2, T3, T4, T5, T6, T7) as Encode>::spec_encode((self.model().2, self.model().3, self.model().4, self.model().5, self.model().6, self.model().7));
            let r3 = <(T3, T4, T5, T6, T7) as Encode>::spec_encode((self.model().3, self.model().4, self.model().5, self.model().6, self.model().7));
            let r4 = <(T4, T5, T6, T7) as Encode>::spec_encode((self.model().4, self.model().5, self.model().6, self.model().7));
            let r5 = <(T5, T6, T7) as Encode>::spec_encode((self.model().5, self.model().6, self.model().7));
            let r6 = <(T6, T7) as Encode>::spec_encode((self.model().6, self.model().7));
            let r7 = <(T7,) as Encode>::spec_encode((self.model().7,));
            assert(Self::spec_encode(self.model()) == encode_then(l0, r1));
            assert(r1 == encode_then(e1, r2));
            lemma_encode_then_assoc(l0, e1, r2);
            assert(r2 == encode_then(e2, r3));
            lemma_encode_then_assoc(l1, e2, r3);
            assert(r3 == encode_then(e3, r4));
            lemma_encode_then_assoc(l2, e3, r4);
            assert(r4 == encode_then(e4, r5));
            lemma_encode_then_assoc(l3, e4, r5);
            assert(r5 == encode_then(e5, r6));
            lemma_encode_then_assoc(l4, e5, r6);
            assert(r6 == encode_then(e6, r7));
            lemma_encode_then_assoc(l5, e6, r7);
            assert(r7 == e7);
            assert(Self::spec_encode(self.model()) == l7);
        }
        self.0.encode(stream)?;
        let ghost s1 = *stream;
        let r1 = self.1.encode(stream);
        proof {
            lemma_wrote_then(s0, s1, *stream, T0::spec_encode(self.0.model()).0, T1::spec_encode(self.1.model()).0);
        }
        r1?;
        let ghost s2 = *stream;
        let r2 = self.2.encode(stream);
        proof {
            lemma_wrote_then(s0, s2, *stream, encode_then(T0::spec_encode(self.0.model()), T1::spec_encode(self.1.model())).0, T2::spec_encode(self.2.model()).0);
        }
        r2?;
        let ghost s3 = *stream;
        let r3 = self.3.encode(stream);
        proof {
            lemma_wrote_then(s0, s3, *stream, encode_then(encode_then(T0::spec_encode(self.0.model()), T1::spec_encode(self.1.model())), T2::spec_encode(self.2.model())).0, T3::spec_encode(self.3.model()).0);
        }
        r3?;
        let ghost s4 = *stream;
        let r4 = self.4.encode(stream);
        proof {
            lemma_wrote_then(s0, s4, *stream, encode_then(encode_then(encode_then(T0::spec_encode(self.0.model()), T1::spec_encode(self.1.model())), T2::spec_encode(self.2.model())), T3::spec_encode(self.3.model())).0, T4::spec_encode(self.4.model()).0);
        }
        r4?;
        let ghost s5 = *stream;
        let r5 = self.5.encode(stream);
        proof {
            lemma_wrote_then(s0, s5, *stream, encode_then(encode_then(encode_then(encode_then(T0::spec_encode(self.0.model()), T1::spec_encode(self.1.model())), T2::spec_encode(self.2.model())), T3::spec_encode(self.3.model())), T4::spec_encode(self.4.model())).0, T5::spec_encode(self.5.model()).0);
        }
        r5?;
        let ghost s6 = *stream;
        let r6 = self.6.encode(stream);
        proof {
            lemma_wrote_then(s0, s6, *stream, encode_then(encode_then(encode_then(encode_then(encode_then(T0::spec_encode(self.0.model()), T1::spec_encode(self.1.model())), T2::spec_encode(self.2.model())), T3::spec_encode(self.3.model())), T4::spec_encode(self.4.model())), T5::spec_encode(self.5.model())).0, T6::spec_encode(self.6.model()).0);
        }
        r6?;
        let ghost s7 = *stream;
        let r7 = self.7.encode(stream);
        proof {
            lemma_wrote_then(s0, s7, *stream, encode_then(encode_then(encode_then(encode_then(encode_then(encode_then(T0::spec_encode(self.0.model()), T1::spec_encode(self.1.model())), T2::spec_encode(self.2.model())), T3::spec_encode(self.3.model())), T4::spec_encode(self.4.model())), T5::spec_encode(self.5.model())), T6::spec_encode(self.6.model())).0, T7::spec_encode(self.7.model()).0);
        }
        r7
    }
}

impl<T0: Decode, T1: Decode, T2: Decode, T3: Decode, T4: Decode, T5: Decode, T6: Decode, T7: Decode> Decode for (T0, T1, T2, T3, T4, T5, T6, T7) {
    open spec fn spec_decode(bytes: Seq<u8>) -> Decoding<(T0::M, T1::M, T2::M, T3::M, T4::M, T5::M, T6::M, T7::M)> {
        decode_then(
            T0::spec_decode(bytes),
            bytes,
            |v0: T0::M, r: Seq<u8>|
                match <(T1, T2, T3, T4, T5, T6, T7) as Decode>::spec_decode(r) {
                    None => None,
                    Some((Err(e), k)) => Some((Err(e), k)),
                    Some((Ok(t), k)) => Some((Ok((v0, t.0, t.1, t.2, t.3, t.4, t.5, t.6)), k)),
                },
        )
    }

    fn decode(stream: &mut IStream) -> (r: Result<(T0, T1, T2, T3, T4, T5, T6, T7), DecodeError>) {
        let ghost s0 = *stream;
        let v0 = T0::decode(stream)?;
        let ghost s1 = *stream;
        let rt = <(T1, T2, T3, T4, T5, T6, T7) as Decode>::decode(stream);
        proof {
            lemma_decoded_then(s0, s1, *stream, T0::spec_decode(s0.rest()), Ok::<T0, DecodeError>(v0), <(T1, T2, T3, T4, T5, T6, T7) as Decode>::spec_decode(s1.rest()), rt);
        }
        let t = rt?;
        Ok((v0, t.0, t.1, t.2, t.3, t.4, t.5, t.6))
    }
}

impl<T0: Roundtrip, T1: Roundtrip, T2: Roundtrip, T3: Roundtrip, T4: Roundtrip, T5: Roundtrip, T6: Roundtrip, T7: Roundtrip> Roundtrip for (T0, T1, T2, T3, T4, T5, T6, T7) {
    proof fn lemma_roundtrip(m: (T0::M, T1::M, T2::M, T3::M, T4::M, T5::M, T6::M, T7::M), rest: Seq<u8>) {
        let t = (m.1, m.2, m.3, m.4, m.5, m.6, m.7);
        let e0 = T0::spec_encode(m.0).0;
        let et = <(T1, T2, T3, T4, T5, T6, T7) as Encode>::spec_encode(t).0;
        T0::lemma_roundtrip(m.0, et + rest);
        <(T1, T2, T3, T4, T5, T6, T7) as Roundtrip>::lemma_roundtrip(t, rest);
        assert(e0 + et + rest =~= e0 + (et + rest));
        assert((e0 + (et + rest)).skip(e0.len() as int) =~= et + rest);
    }
}

impl<T0: Model, T1: Model, T2: Model, T3: Model, T4: Model, T5: Model, T6: Model, T7: Model, T8: Model> Model for (T0, T1, T2, T3, T4, T5, T6, T7, T8) {
    type M = (T0::M, T1::M, T2::M, T3::M, T4::M, T5::M, T6::M, T7::M, T8::M);

    open spec fn model(&self) -> (T0::M, T1::M, T2::M, T3::M, T4::M, T5::M, T6::M, T7::M, T8::M) {
        (self.0.model(), self.1.model(), self.2.model(), self.3.model(), self.4.model(), self.5.model(), self.6.model(), self.7.model(), self.8.model())
    }

    open spec fn model_wf(m: (T0::M, T1::M, T2::M, T3::M, T4::M, T5::M, T6::M, T7::M, T8::M)) -> bool {
        T0::model_wf(m.0) && T1::model_wf(m.1) && T2::model_wf(m.2) && T3::model_wf(m.3) && T4::model_wf(m.4) && T5::model_wf(m.5) && T6::model_wf(m.6) && T7::model_wf(m.7) && T8::model_wf(m.8)
    }
}

impl<T0: Encode, T1: Encode, T2: Encode, T3: Encode, T4: Encode, T5: Encode, T6: Encode, T7: Encode, T8: Encode> Encode for (T0, T1, T2, T3, T4, T5, T6, T7, T8) {
    open spec fn spec_encode(m: (T0::M, T1::M, T2::M, T3::M, T4::M, T5::M, T6::M, T7::M, T8::M)) -> (Seq<u8>, Option<EncodeError>) {
        encode_then(T0::spec_encode(m.0), <(T1, T2, T3, T4, T5, T6, T7, T8) as Encode>::spec_encode((m.1, m.2, m.3, m.4, m.5, m.6, m.7, m.8)))
    }

    fn encode(&self, stream: &mut OStream) -> (r: Result<(), EncodeError>) {
        let ghost s0 = *stream;
        proof {
            let e0 = T0::spec_encode(self.0.model());
            let e1 = T1::spec_encode(self.1.model());
            let e2 = T2::spec_encode(self.2.model());
            let e3 = T3::spec_encode(self.3.model());
            let e4 = T4::spec_encode(self.4.model());
            let e5 = T5::spec_encode(self.5.model());
            let e6 = T6::spec_encode(self.6.model());
            let e7 = T7::spec_encode(self.7.model());
            let e8 = T8::spec_encode(self.8.model());
            let l0 = e0;
            let l1 = encode_then(l0, e1);
            let l2 = encode_then(l1, e2);
            let l3 = encode_then(l2, e3);
            let l4 = encode_then(l3, e4);
            let l5 = encode_then(l4, e5);
            let l6 = encode_then(l5, e6);
            let l7 = encode_then(l6, e7);
            let l8 = encode_then(l7, e8);
            let r1 = <(T1, T2, T3, T4, T5, T6, T7, T8) as Encode>::spec_encode((self.model().1, self.model().2, self.model().3, self.model().4, self.model().5, self.model().6, self.model().7, self.model().8));
            let r2 = <(T2, T3, T4, T5, T6, T7, T8) as Encode>::spec_encode((self.model().2, self.model().3, self.model().4, self.model().5, self.model().6, self.model().7, self.model().8));
            let r3 = <(T3, T4, T5, T6, T7, T8) as Encode>::spec_encode((self.model().3, self.model().4, self.model().5, self.model().6, self.model().7, self.model().8));
            let r4 = <(T4, T5, T6, T7, T8) as Encode>::spec_encode((self.model().4, self.model().5, self.model().6, self.model().7, self.model().8));
            let r5 = <(T5, T6, T7, T8) as Encode>::spec_encode((self.model().5, self.model().6, self.model().7, self.model().8));
            let r6 = <(T6, T7, T8) as Encode>::spec_encode((self.model().6, self.model().7, self.model().8));
            let r7 = <(T7, T8) as Encode>::spec_encode((self.model().7, self.model().8));
            let r8 = <(T8,) as Encode>::spec_encode((self.model().8,));
            assert(Self::spec_encode(self.model()) == encode_then(l0, r1));
            assert(r1 == encode_then(e1, r2));
            lemma_encode_then_assoc(l0, e1, r2);
            assert(r2 == encode_then(e2, r3));
            lemma_encode_then_assoc(l1, e2, r3);
            assert(r3 == encode_then(e3, r4));
            lemma_encode_then_assoc(l2, e3, r4);
            assert(r4 == encode_then(e4, r5));
            lemma_encode_then_assoc(l3, e4, r5);
            assert(r5 == encode_then(e5, r6));
            lemma_encode_then_assoc(l4, e5, r6);
            assert(r6 == encode_then(e6, r7));
            lemma_encode_then_assoc(l5, e6, r7);
            assert(r7 == encode_then(e7, r8));
            lemma_encode_then_assoc(l6, e7, r8);
            assert(r8 == e8);
            assert(Self::spec_encode(self.model()) == l8);
        }
        self.0.encode(stream)?;
        let ghost s1 = *stream;
        let r1 = self.1.encode(stream);
        proof {
            lemma_wrote_then(s0, s1, *stream, T0::spec_encode(self.0.model()).0, T1::spec_encode(self.1.model()).0);
        }
        r1?;
        let ghost s2 = *stream;
        let r2 = self.2.encode(stream);
        proof {
            lemma_wrote_then(s0, s2, *stream, encode_then(T0::spec_encode(self.0.model()), T1::spec_encode(self.1.model())).0, T2::spec_encode(self.2.model()).0);
        }
        r2?;
        let ghost s3 = *stream;
        let r3 = self.3.encode(stream);
        proof {
            lemma_wrote_then(s0, s3, *stream, encode_then(encode_then(T0::spec_encode(self.0.model()), T1::spec_encode(self.1.model())), T2::spec_encode(self.2.model())).0, T3::spec_encode(self.3.model()).0);
        }
        r3?;
        let ghost s4 = *stream;
        let r4 = self.4.encode(stream);
        proof {
            lemma_wrote_then(s0, s4, *stream, encode_then(encode_then(encode_then(T0::spec_encode(self.0.model()), T1::spec_encode(self.1.model())), T2::spec_encode(self.2.model())), T3::spec_encode(self.3.model())).0, T4::spec_encode(self.4.model()).0);
        }
        r4?;
        let ghost s5 = *stream;
        let r5 = self.5.encode(stream);
        proof {
            lemma_wrote_then(s0, s5, *stream, encode_then(encode_then(encode_then(encode_then(T0::spec_encode(self.0.model()), T1::spec_encode(self.1.model())), T2::spec_encode(self.2.model())), T3::spec_encode(self.3.model())), T4::spec_encode(self.4.model())).0, T5::spec_encode(self.5.model()).0);
        }
        r5?;
        let ghost s6 = *stream;
        let r6 = self.6.encode(stream);
        proof {
            lemma_wrote_then(s0, s6, *stream, encode_then(encode_then(encode_then(encode_then(encode_then(T0::spec_encode(self.0.model()), T1::spec_encode(self.1.model())), T2::spec_encode(self.2.model())), T3::spec_encode(self.3.model())), T4::spec_encode(self.4.model())), T5::spec_encode(self.5.model())).0, T6::spec_encode(self.6.model()).0);
        }
        r6?;
        let ghost s7 = *stream;
        let r7 = self.7.encode(stream);
        proof {
            lemma_wrote_then(s0, s7, *stream, encode_then(encode_then(encode_then(encode_then(encode_then(encode_then(T0::spec_encode(self.0.model()), T1::spec_encode(self.1.model())), T2::spec_encode(self.2.model())), T3::spec_encode(self.3.model())), T4::spec_encode(self.4.model())), T5::spec_encode(self.5.model())), T6::spec_encode(self.6.model())).0, T7::spec_encode(self.7.model()).0);
        }
        r7?;
        let ghost s8 = *stream;
        let r8 = self.8.encode(stream);
        proof {
            lemma_wrote_then(s0, s8, *stream, encode_then(encode_then(encode_then(encode_then(encode_then(encode_then(encode_then(T0::spec_encode(self.0.model()), T1::spec_encode(self.1.model())), T2::spec_encode(self.2.model())), T3::spec_encode(self.3.model())), T4::spec_encode(self.4.model())), T5::spec_encode(self.5.model())), T6::spec_encode(self.6.model())), T7::spec_encode(self.7.model())).0, T8::spec_encode(self.8.model()).0);
        }
        r8
    }
}

impl<T0: Decode, T1: Decode, T2: Decode, T3: Decode, T4: Decode, T5: Decode, T6: Decode, T7: Decode, T8: Decode> Decode for (T0, T1, T2, T3, T4, T5, T6, T7, T8) {
    open spec fn spec_decode(bytes: Seq<u8>) -> Decoding<(T0::M, T1::M, T2::M, T3::M, T4::M, T5::M, T6::M, T7::M, T8::M)> {
        decode_then(
            T0::spec_decode(bytes),
            bytes,
            |v0: T0::M, r: Seq<u8>|
                match <(T1, T2, T3, T4, T5, T6, T7, T8) as Decode>::spec_decode(r) {
                    None => None,
                    Some((Err(e), k)) => Some((Err(e), k)),
                    Some((Ok(t), k)) => Some((Ok((v0, t.0, t.1, t.2, t.3, t.4, t.5, t.6, t.7)), k)),
                },
        )
    }

    fn decode(stream: &mut IStream) -> (r: Result<(T0, T1, T2, T3, T4, T5, T6, T7, T8), DecodeError>) {
        let ghost s0 = *stream;
        let v0 = T0::decode(stream)?;
        let ghost s1 = *stream;
        let rt = <(T1, T2, T3, T4, T5, T6, T7, T8) as Decode>::decode(stream);
        proof {
            lemma_decoded_then(s0, s1, *stream, T0::spec_decode(s0.rest()), Ok::<T0, DecodeError>(v0), <(T1, T2, T3, T4, T5, T6, T7, T8) as Decode>::spec_decode(s1.rest()), rt);
        }
        let t = rt?;
        Ok((v0, t.0, t.1, t.2, t.3, t.4, t.5, t.6, t.7))
    }
}

impl<T0: Roundtrip, T1: Roundtrip, T2: Roundtrip, T3: Roundtrip, T4: Roundtrip, T5: Roundtrip, T6: Roundtrip, T7: Roundtrip, T8: Roundtrip> Roundtrip for (T0, T1, T2, T3, T4, T5, T6, T7, T8) {
    proof fn lemma_roundtrip(m: (T0::M, T1::M, T2::M, T3::M, T4::M, T5::M, T6::M, T7::M, T8::M), rest: Seq<u8>) {
        let t = (m.1, m.2, m.3, m.4, m.5, m.6, m.7, m.8);
        let e0 = T0::spec_encode(m.0).0;
        let et = <(T1, T2, T3, T4, T5, T6, T7, T8) as Encode>::spec_encode(t).0;
        T0::lemma_roundtrip(m.0, et + rest);
        <(T1, T2, T3, T4, T5, T6, T7, T8) as Roundtrip>::lemma_roundtrip(t, rest);
        assert(e0 + et + rest =~= e0 + (et + rest));
        assert((e0 + (et + rest)).skip(e0.len() as int) =~= et + rest);
    }
}

impl<T0: Model, T1: Model, T2: Model, T3: Model, T4: Model, T5: Model, T6: Model, T7: Model, T8: Model, T9: Model> Model for (T0, T1, T2, T3, T4, T5, T6, T7, T8, T9) {
    type M = (T0::M, T1::M, T2::M, T3::M, T4::M, T5::M, T6::M, T7::M, T8::M, T9::M);

    open spec fn model(&self) -> (T0::M, T1::M, T2::M, T3::M, T4::M, T5::M, T6::M, T7::M, T8::M, T9::M) {
        (self.0.model(), self.1.model(), self.2.model(), self.3.model(), self.4.model(), self.5.model(), self.6.model(), self.7.model(), self.8.model(), self.9.model())
    }

    open spec fn model_wf(m: (T0::M, T1::M, T2::M, T3::M, T4::M, T5::M, T6::M, T7::M, T8::M, T9::M)) -> bool {
        T0::model_wf(m.0) && T1::model_wf(m.1) && T2::model_wf(m.2) && T3::model_wf(m.3) && T4::model_wf(m.4) && T5::model_wf(m.5) && T6::model_wf(m.6) && T7::model_wf(m.7) && T8::model_wf(m.8) && T9::model_wf(m.9)
    }
}

impl<T0: Encode, T1: Encode, T2: Encode, T3: Encode, T4: Encode, T5: Encode, T6: Encode, T7: Encode, T8: Encode, T9: Encode> Encode for (T0, T1, T2, T3, T4, T5, T6, T7, T8, T9) {
    open spec fn spec_encode(m: (T0::M, T1::M, T2::M, T3::M, T4::M, T5::M, T6::M, T7::M, T8::M, T9::M)) -> (Seq<u8>, Option<EncodeError>) {
        encode_then(T0::spec_encode(m.0), <(T1, T2, T3, T4, T5, T6, T7, T8, T9) as Encode>::spec_encode((m.1, m.2, m.3, m.4, m.5, m.6, m.7, m.8, m.9)))
    }

    #[verifier::rlimit(100)]
    fn encode(&self, stream: &mut OStream) -> (r: Result<(), EncodeError>) {
        let ghost s0 = *stream;
        proof {
            let e0 = T0::spec_encode(self.0.model());
            let e1 = T1::spec_encode(self.1.model());
            let e2 = T2::spec_encode(self.2.model());
            let e3 = T3::spec_encode(self.3.model());
            let e4 = T4::spec_encode(self.4.model());
            let e5 = T5::spec_encode(self.5.model());
            let e6 = T6::spec_encode(self.6.model());
            let e7 = T7::spec_encode(self.7.model());
            let e8 = T8::spec_encode(self.8.model());
            let e9 = T9::spec_encode(self.9.model());
            let l0 = e0;
            let l1 = encode_then(l0, e1);
            let l2 = encode_then(l1, e2);
            let l3 = encode_then(l2, e3);
            let l4 = encode_then(l3, e4);
            let l5 = encode_then(l4, e5);
            let l6 = encode_then(l5, e6);
            let l7 = encode_then(l6, e7);
            let l8 = encode_then(l7, e8);
            let l9 = encode_then(l8, e9);
            let r1 = <(T1, T2, T3, T4, T5, T6, T7, T8, T9) as Encode>::spec_encode((self.model().1, self.model().2, self.model().3, self.model().4, self.model().5, self.model().6, self.model().7, self.model().8, self.model().9));
            let r2 = <(T2, T3, T4, T5, T6, T7, T8, T9) as Encode>::spec_encode((self.model().2, self.model().3, self.model().4, self.model().5, self.model().6, self.model().7, self.model().8, self.model().9));
            let r3 = <(T3, T4, T5, T6, T7, T8, T9) as Encode>::spec_encode((self.model().3, self.model().4, self.model().5, self.model().6, self.model().7, self.model().8, self.model().9));
            let r4 = <(T4, T5, T6, T7, T8, T9) as Encode>::spec_encode((self.model().4, self.model().5, self.model().6, self.model().7, self.model().8, self.model().9));
            let r5 = <(T5, T6, T7, T8, T9) as Encode>::spec_encode((self.model().5, self.model().6, self.model().7, self.model().8, self.model().9));
            let r6 = <(T6, T7, T8, T9) as Encode>::spec_encode((self.model().6, self.model().7, self.model().8, self.model().9));
            let r7 = <(T7, T8, T9) as Encode>::spec_encode((self.model().7, self.model().8, self.model().9));
            let r8 = <(T8, T9) as Encode>::spec_encode((self.model().8, self.model().9));
            let r9 = <(T9,) as Encode>::spec_encode((self.model().9,));
            assert(Self::spec_encode(self.model()) == encode_then(l0, r1));
            assert(r1 == encode_then(e1, r2));
            lemma_encode_then_assoc(l0, e1, r2);
            assert(r2 == encode_then(e2, r3));
            lemma_encode_then_assoc(l1, e2, r3);
            assert(r3 == encode_then(e3, r4));
            lemma_encode_then_assoc(l2, e3, r4);
            assert(r4 == encode_then(e4, r5));
            lemma_encode_then_assoc(l3, e4, r5);
            assert(r5 == encode_then(e5, r6));
            lemma_encode_then_assoc(l4, e5, r6);
            assert(r6 == encode_then(e6, r7));
            lemma_encode_then_assoc(l5, e6, r7);
            assert(r7 == encode_then(e7, r8));
            lemma_encode_then_assoc(l6, e7, r8);
            assert(r8 == encode_then(e8, r9));
            lemma_encode_then_assoc(l7, e8, r9);
            assert(r9 == e9);
            assert(Self::spec_encode(self.model()) == l9);
        }
        self.0.encode(stream)?;
        let ghost s1 = *stream;
        let r1 = self.1.encode(stream);
        proof {
            lemma_wrote_then(s0, s1, *stream, T0::spec_encode(self.0.model()).0, T1::spec_encode(self.1.model()).0);
        }
        r1?;
        let ghost s2 = *stream;
        let r2 = self.2.encode(stream);
        proof {
            lemma_wrote_then(s0, s2, *stream, encode_then(T0::spec_encode(self.0.model()), T1::spec_encode(self.1.model())).0, T2::spec_encode(self.2.model()).0);
        }
        r2?;
        let ghost s3 = *stream;
        let r3 = self.3.encode(stream);
        proof {
            lemma_wrote_then(s0, s3, *stream, encode_then(encode_then(T0::spec_encode(self.0.model()), T1::spec_encode(self.1.model())), T2::spec_encode(self.2.model())).0, T3::spec_encode(self.3.model()).0);
        }
        r3?;
        let ghost s4 = *stream;
        let r4 = self.4.encode(stream);
        proof {
            lemma_wrote_then(s0, s4, *stream, encode_then(encode_then(encode_then(T0::spec_encode(self.0.model()), T1::spec_encode(self.1.model())), T2::spec_encode(self.2.model())), T3::spec_encode(self.3.model())).0, T4::spec_encode(self.4.model()).0);
        }
        r4?;
        let ghost s5 = *stream;
        let r5 = self.5.encode(stream);
        proof {
            lemma_wrote_then(s0, s5, *stream, encode_then(encode_then(encode_then(encode_then(T0::spec_encode(self.0.model()), T1::spec_encode(self.1.model())), T2::spec_encode(self.2.model())), T3::spec_encode(self.3.model())), T4::spec_encode(self.4.model())).0, T5::spec_encode(self.5.model()).0);
        }
        r5?;
        let ghost s6 = *stream;
        let r6 = self.6.encode(stream);
        proof {
            lemma_wrote_then(s0, s6, *stream, encode_then(encode_then(encode_then(encode_then(encode_then(T0::spec_encode(self.0.model()), T1::spec_encode(self.1.model())), T2::spec_encode(self.2.model())), T3::spec_encode(self.3.model())), T4::spec_encode(self.4.model())), T5::spec_encode(self.5.model())).0, T6::spec_encode(self.6.model()).0);
        }
        r6?;
        let ghost s7 = *stream;
        let r7 = self.7.encode(stream);
        proof {
            lemma_wrote_then(s0, s7, *stream, encode_then(encode_then(encode_then(encode_then(encode_then(encode_then(T0::spec_encode(self.0.model()), T1::spec_encode(self.1.model())), T2::spec_encode(self.2.model())), T3::spec_encode(self.3.model())), T4::spec_encode(self.4.model())), T5::spec_encode(self.5.model())), T6::spec_encode(self.6.model())).0, T7::spec_encode(self.7.model()).0);
        }
        r7?;
        let ghost s8 = *stream;
        let r8 = self.8.encode(stream);
        proof {
            lemma_wrote_then(s0, s8, *stream, encode_then(encode_then(encode_then(encode_then(encode_then(encode_then(encode_then(T0::spec_encode(self.0.model()), T1::spec_encode(self.1.model())), T2::spec_encode(self.2.model())), T3::spec_encode(self.3.model())), T4::spec_encode(self.4.model())), T5::spec_encode(self.5.model())), T6::spec_encode(self.6.model())), T7::spec_encode(self.7.model())).0, T8::spec_encode(self.8.model()).0);
        }
        r8?;
        let ghost s9 = *stream;
        let r9 = self.9.encode(stream);
        proof {
            lemma_wrote_then(s0, s9, *stream, encode_then(encode_then(encode_then(encode_then(encode_then(encode_then(encode_then(encode_then(T0::spec_encode(self.0.model()), T1::spec_encode(self.1.model())), T2::spec_encode(self.2.model())), T3::spec_encode(self.3.model())), T4::spec_encode(self.4.model())), T5::spec_encode(self.5.model())), T6::spec_encode(self.6.model())), T7::spec_encode(self.7.model())), T8::spec_encode(self.8.model())).0, T9::spec_encode(self.9.model()).0);
        }
        r9
    }
}

impl<T0: Decode, T1: Decode, T2: Decode, T3: Decode, T4: Decode, T5: Decode, T6: Decode, T7: Decode, T8: Decode, T9: Decode> Decode for (T0, T1, T2, T3, T4, T5, T6, T7, T8, T9) {
    open spec fn spec_decode(bytes: Seq<u8>) -> Decoding<(T0::M, T1::M, T2::M, T3::M, T4::M, T5::M, T6::M, T7::M, T8::M, T9::M)> {
        decode_then(
            T0::spec_decode(bytes),
            bytes,
            |v0: T0::M, r: Seq<u8>|
                match <(T1, T2, T3, T4, T5, T6, T7, T8, T9) as Decode>::spec_decode(r) {
                    None => None,
                    Some((Err(e), k)) => Some((Err(e), k)),
                    Some((Ok(t), k)) => Some((Ok((v0, t.0, t.1, t.2, t.3, t.4, t.5, t.6, t.7, t.8)), k)),
                },
        )
    }

    fn decode(stream: &mut IStream) -> (r: Result<(T0, T1, T2, T3, T4, T5, T6, T7, T8, T9), DecodeError>) {
        let ghost s0 = *stream;
        let v0 = T0::decode(stream)?;
        let ghost s1 = *stream;
        let rt = <(T1, T2, T3, T4, T5, T6, T7, T8, T9) as Decode>::decode(stream);
        proof {
            lemma_decoded_then(s0, s1, *stream, T0::spec_decode(s0.rest()), Ok::<T0, DecodeError>(v0), <(T1, T2, T3, T4, T5, T6, T7, T8, T9) as Decode>::spec_decode(s1.rest()), rt);
        }
        let t = rt?;
        Ok((v0, t.0, t.1, t.2, t.3, t.4, t.5, t.6, t.7, t.8))
    }
}

impl<T0: Roundtrip, T1: Roundtrip, T2: Roundtrip, T3: Roundtrip, T4: Roundtrip, T5: Roundtrip, T6: Roundtrip, T7: Roundtrip, T8: Roundtrip, T9: Roundtrip> Roundtrip for (T0, T1, T2, T3, T4, T5, T6, T7, T8, T9) {
    proof fn lemma_roundtrip(m: (T0::M, T1::M, T2::M, T3::M, T4::M, T5::M, T6::M, T7::M, T8::M, T9::M), rest: Seq<u8>) {
        let t = (m.1, m.2, m.3, m.4, m.5, m.6, m.7, m.8, m.9);
        let e0 = T0::spec_encode(m.0).0;
        let et = <(T1, T2, T3, T4, T5, T6, T7, T8, T9) as Encode>::spec_encode(t).0;
        T0::lemma_roundtrip(m.0, et + rest);
        <(T1, T2, T3, T4, T5, T6, T7, T8, T9) as Roundtrip>::lemma_roundtrip(t, rest);
        assert(e0 + et + rest =~= e0 + (et + rest));
        assert((e0 + (et + rest)).skip(e0.len() as int) =~= et + rest);
    }
}

impl<T0: Model, T1: Model, T2: Model, T3: Model, T4: Model, T5: Model, T6: Model, T7: Model, T8: Model, T9: Model, T10: Model> Model for (T0, T1, T2, T3, T4, T5, T6, T7, T8, T9, T10) {
    type M = (T0::M, T1::M, T2::M, T3::M, T4::M, T5::M, T6::M, T7::M, T8::M, T9::M, T10::M);

    open spec fn model(&self) -> (T0::M, T1::M, T2::M, T3::M, T4::M, T5::M, T6::M, T7::M, T8::M, T9::M, T10::M) {
        (self.0.model(), self.1.model(), self.2.model(), self.3.model(), self.4.model(), self.5.model(), self.6.model(), self.7.model(), self.8.model(), self.9.model(), self.10.model())
    }

    open spec fn model_wf(m: (T0::M, T1::M, T2::M, T3::M, T4::M, T5::M, T6::M, T7::M, T8::M, T9::M, T10::M)) -> bool {
        T0::model_wf(m.0) && T1::model_wf(m.1) && T2::model_wf(m.2) && T3::model_wf(m.3) && T4::model_wf(m.4) && T5::model_wf(m.5) && T6::model_wf(m.6) && T7::model_wf(m.7) && T8::model_wf(m.8) && T9::model_wf(m.9) && T10::model_wf(m.10)
    }
}

impl<T0: Encode, T1: Encode, T2: Encode, T3: Encode, T4: Encode, T5: Encode, T6: Encode, T7: Encode, T8: Encode, T9: Encode, T10: Encode> Encode for (T0, T1, T2, T3, T4, T5, T6, T7, T8, T9, T10) {
    open spec fn spec_encode(m: (T0::M, T1::M, T2::M, T3::M, T4::M, T5::M, T6::M, T7::M, T8::M, T9::M, T10::M)) -> (Seq<u8>, Option<EncodeError>) {
        encode_then(T0::spec_encode(m.0), <(T1, T2, T3, T4, T5, T6, T7, T8, T9, T10) as Encode>::spec_encode((m.1, m.2, m.3, m.4, m.5, m.6, m.7, m.8, m.9, m.10)))
    }

    #[verifier::rlimit(100)]
    fn encode(&self, stream: &mut OStream) -> (r: Result<(), EncodeError>) {
        let ghost s0 = *stream;
        proof {
            let e0 = T0::spec_encode(self.0.model());
            let e1 = T1::spec_encode(self.1.model());
            let e2 = T2::spec_encode(self.2.model());
            let e3 = T3::spec_encode(self.3.model());
            let e4 = T4::spec_encode(self.4.model());
            let e5 = T5::spec_encode(self.5.model());
            let e6 = T6::spec_encode(self.6.model());
            let e7 = T7::spec_encode(self.7.model());
            let e8 = T8::spec_encode(self.8.model());
            let e9 = T9::spec_encode(self.9.model());
            let e10 = T10::spec_encode(self.10.model());
            let l0 = e0;
            let l1 = encode_then(l0, e1);
            let l2 = encode_then(l1, e2);
            let l3 = encode_then(l2, e3);
            let l4 = encode_then(l3, e4);
            let l5 = encode_then(l4, e5);
            let l6 = encode_then(l5, e6);
            let l7 = encode_then(l6, e7);
            let l8 = encode_then(l7, e8);
            let l9 = encode_then(l8, e9);
            let l10 = encode_then(l9, e10);
            let r1 = <(T1, T2, T3, T4, T5, T6, T7, T8, T9, T10) as Encode>::spec_encode((self.model().1, self.model().2, self.model().3, self.model().4, self.model().5, self.model().6, self.model().7, self.model().8, self.model().9, self.model().10));
            let r2 = <(T2, T3, T4, T5, T6, T7, T8, T9, T10) as Encode>::spec_encode((self.model().2, self.model().3, self.model().4, self.model().5, self.model().6, self.model().7, self.model().8, self.model().9, self.model().10));
            let r3 = <(T3, T4, T5, T6, T7, T8, T9, T10) as Encode>::spec_encode((self.model().3, self.model().4, self.model().5, self.model().6, self.model().7, self.model().8, self.model().9, self.model().10));
            let r4 = <(T4, T5, T6, T7, T8, T9, T10) as Encode>::spec_encode((self.model().4, self.model().5, self.model().6, self.model().7, self.model().8, self.model().9, self.model().10));
            let r5 = <(T5, T6, T7, T8, T9, T10) as Encode>::spec_encode((self.model().5, self.model().6, self.model().7, self.model().8, self.model().9, self.model().10));
            let r6 = <(T6, T7, T8, T9, T10) as Encode>::spec_encode((self.model().6, self.model().7, self.model().8, self.model().9, self.model().10));
            let r7 = <(T7, T8, T9, T10) as Encode>::spec_encode((self.model().7, self.model().8, self.model().9, self.model().10));
            let r8 = <(T8, T9, T10) as Encode>::spec_encode((self.model().8, self.model().9, self.model().10));
            let r9 = <(T9, T10) as Encode>::spec_encode((self.model().9, self.model().10));
            let r10 = <(T10,) as Encode>::spec_encode((self.model().10,));
            assert(Self::spec_encode(self.model()) == encode_then(l0, r1));
            assert(r1 == encode_then(e1, r2));
            lemma_encode_then_assoc(l0, e1, r2);
            assert(r2 == encode_then(e2, r3));
            lemma_encode_then_assoc(l1, e2, r3);
            assert(r3 == encode_then(e3, r4));
            lemma_encode_then_assoc(l2, e3, r4);
            assert(r4 == encode_then(e4, r5));
            lemma_encode_then_assoc(l3, e4, r5);
            assert(r5 == encode_then(e5, r6));
            lemma_encode_then_assoc(l4, e5, r6);
            assert(r6 == encode_then(e6, r7));
            lemma_encode_then_assoc(l5, e6, r7);
            assert(r7 == encode_then(e7, r8));
            lemma_encode_then_assoc(l6, e7, r8);
            assert(r8 == encode_then(e8, r9));
            lemma_encode_then_assoc(l7, e8, r9);
            assert(r9 == encode_then(e9, r10));
            lemma_encode_then_assoc(l8, e9, r10);
            assert(r10 == e10);
            assert(Self::spec_encode(self.model()) == l10);
        }
        self.0.encode(stream)?;
        let ghost s1 = *stream;
        let r1 = self.1.encode(stream);
        proof {
            lemma_wrote_then(s0, s1, *stream, T0::spec_encode(self.0.model()).0, T1::spec_encode(self.1.model()).0);
        }
        r1?;
        let ghost s2 = *stream;
        let r2 = self.2.encode(stream);
        proof {
            lemma_wrote_then(s0, s2, *stream, encode_then(T0::spec_encode(self.0.model()), T1::spec_encode(self.1.model())).0, T2::spec_encode(self.2.model()).0);
        }
        r2?;
        let ghost s3 = *stream;
        let r3 = self.3.encode(stream);
        proof {
            lemma_wrote_then(s0, s3, *stream, encode_then(encode_then(T0::spec_encode(self.0.model()), T1::spec_encode(self.1.model())), T2::spec_encode(self.2.model())).0, T3::spec_encode(self.3.model()).0);
        }
        r3?;
        let ghost s4 = *stream;
        let r4 = self.4.encode(stream);
        proof {
            lemma_wrote_then(s0, s4, *stream, encode_then(encode_then(encode_then(T0::spec_encode(self.0.model()), T1::spec_encode(self.1.model())), T2::spec_encode(self.2.model())), T3::spec_encode(self.3.model())).0, T4::spec_encode(self.4.model()).0);
        }
        r4?;
        let ghost s5 = *stream;
        let r5 = self.5.encode(stream);
        proof {
            lemma_wrote_then(s0, s5, *stream, encode_then(encode_then(encode_then(encode_then(T0::spec_encode(self.0.model()), T1::spec_encode(self.1.model())), T2::spec_encode(self.2.model())), T3::spec_encode(self.3.model())), T4::spec_encode(self.4.model())).0, T5::spec_encode(self.5.model()).0);
        }
        r5?;
        let ghost s6 = *stream;
        let r6 = self.6.encode(stream);
        proof {
            lemma_wrote_then(s0, s6, *stream, encode_then(encode_then(encode_then(encode_then(encode_then(T0::spec_encode(self.0.model()), T1::spec_encode(self.1.model())), T2::spec_encode(self.2.model())), T3::spec_encode(self.3.model())), T4::spec_encode(self.4.model())), T5::spec_encode(self.5.model())).0, T6::spec_encode(self.6.model()).0);
        }
        r6?;
        let ghost s7 = *stream;
        let r7 = self.7.encode(stream);
        proof {
            lemma_wrote_then(s0, s7, *stream, encode_then(encode_then(encode_then(encode_then(encode_then(encode_then(T0::spec_encode(self.0.model()), T1::spec_encode(self.1.model())), T2::spec_encode(self.2.model())), T3::spec_encode(self.3.model())), T4::spec_encode(self.4.model())), T5::spec_encode(self.5.model())), T6::spec_encode(self.6.model())).0, T7::spec_encode(self.7.model()).0);
        }
        r7?;
        let ghost s8 = *stream;
        let r8 = self.8.encode(stream);
        proof {
            lemma_wrote_then(s0, s8, *stream, encode_then(encode_then(encode_then(encode_then(encode_then(encode_then(encode_then(T0::spec_encode(self.0.model()), T1::spec_encode(self.1.model())), T2::spec_encode(self.2.model())), T3::spec_encode(self.3.model())), T4::spec_encode(self.4.model())), T5::spec_encode(self.5.model())), T6::spec_encode(self.6.model())), T7::spec_encode(self.7.model())).0, T8::spec_encode(self.8.model()).0);
        }
        r8?;
        let ghost s9 = *stream;
        let r9 = self.9.encode(stream);
        proof {
            lemma_wrote_then(s0, s9, *stream, encode_then(encode_then(encode_then(encode_then(encode_then(encode_then(encode_then(encode_then(T0::spec_encode(self.0.model()), T1::spec_encode(self.1.model())), T2::spec_encode(self.2.model())), T3::spec_encode(self.3.model())), T4::spec_encode(self.4.model())), T5::spec_encode(self.5.model())), T6::spec_encode(self.6.model())), T7::spec_encode(self.7.model())), T8::spec_encode(self.8.model())).0, T9::spec_encode(self.9.model()).0);
        }
        r9?;
        let ghost s10 = *stream;
        let r10 = self.10.encode(stream);
        proof {
            lemma_wrote_then(s0, s10, *stream, encode_then(encode_then(encode_then(encode_then(encode_then(encode_then(encode_then(encode_then(encode_then(T0::spec_encode(self.0.model()), T1::spec_encode(self.1.model())), T2::spec_encode(self.2.model())), T3::spec_encode(self.3.model())), T4::spec_encode(self.4.model())), T5::spec_encode(self.5.model())), T6::spec_encode(self.6.model())), T7::spec_encode(self.7.model())), T8::spec_encode(self.8.model())), T9::spec_encode(self.9.model())).0, T10::spec_encode(self.10.model()).0);
        }
        r10
    }
}

impl<T0: Decode, T1: Decode, T2: Decode, T3: Decode, T4: Decode, T5: Decode, T6: Decode, T7: Decode, T8: Decode, T9: Decode, T10: Decode> Decode for (T0, T1, T2, T3, T4, T5, T6, T7, T8, T9, T10) {
    open spec fn spec_decode(bytes: Seq<u8>) -> Decoding<(T0::M, T1::M, T2::M, T3::M, T4::M, T5::M, T6::M, T7::M, T8::M, T9::M, T10::M)> {
        decode_then(
            T0::spec_decode(bytes),
            bytes,
            |v0: T0::M, r: Seq<u8>|
                match <(T1, T2, T3, T4, T5, T6, T7, T8, T9, T10) as Decode>::spec_decode(r) {
                    None => None,
                    Some((Err(e), k)) => Some((Err(e), k)),
                    Some((Ok(t), k)) => Some((Ok((v0, t.0, t.1, t.2, t.3, t.4, t.5, t.6, t.7, t.8, t.9)), k)),
                },
        )
    }

    fn decode(stream: &mut IStream) -> (r: Result<(T0, T1, T2, T3, T4, T5, T6, T7, T8, T9, T10), DecodeError>) {
        let ghost s0 = *stream;
        let v0 = T0::decode(stream)?;
        let ghost s1 = *stream;
        let rt = <(T1, T2, T3, T4, T5, T6, T7, T8, T9, T10) as Decode>::decode(stream);
        proof {
            lemma_decoded_then(s0, s1, *stream, T0::spec_decode(s0.rest()), Ok::<T0, DecodeError>(v0), <(T1, T2, T3, T4, T5, T6, T7, T8, T9, T10) as Decode>::spec_decode(s1.rest()), rt);
        }
        let t = rt?;
        Ok((v0, t.0, t.1, t.2, t.3, t.4, t.5, t.6, t.7, t.8, t.9))
    }
}

impl<T0: Roundtrip, T1: Roundtrip, T2: Roundtrip, T3: Roundtrip, T4: Roundtrip, T5: Roundtrip, T6: Roundtrip, T7: Roundtrip, T8: Roundtrip, T9: Roundtrip, T10: Roundtrip> Roundtrip for (T0, T1, T2, T3, T4, T5, T6, T7, T8, T9, T10) {
    proof fn lemma_roundtrip(m: (T0::M, T1::M, T2::M, T3::M, T4::M, T5::M, T6::M, T7::M, T8::M, T9::M, T10::M), rest: Seq<u8>) {
        let t = (m.1, m.2, m.3, m.4, m.5, m.6, m.7, m.8, m.9, m.10);
        let e0 = T0::spec_encode(m.0).0;
        let et = <(T1, T2, T3, T4, T5, T6, T7, T8, T9, T10) as Encode>::spec_encode(t).0;
        T0::lemma_roundtrip(m.0, et + rest);
        <(T1, T2, T3, T4, T5, T6, T7, T8, T9, T10) as Roundtrip>::lemma_roundtrip(t, rest);
        assert(e0 + et + rest =~= e0 + (et + rest));
        assert((e0 + (et + rest)).skip(e0.len() as int) =~= et + rest);
    }
}

impl<T0: Model, T1: Model, T2: Model, T3: Model, T4: Model, T5: Model, T6: Model, T7: Model, T8: Model, T9: Model, T10: Model, T11: Model> Model for (T0, T1, T2, T3, T4, T5, T6, T7, T8, T9, T10, T11) {
    type M = (T0::M, T1::M, T2::M, T3::M, T4::M, T5::M, T6::M, T7::M, T8::M, T9::M, T10::M, T11::M);

    open spec fn model(&self) -> (T0::M, T1::M, T2::M, T3::M, T4::M, T5::M, T6::M, T7::M, T8::M, T9::M, T10::M, T11::M) {
        (self.0.model(), self.1.model(), self.2.model(), self.3.model(), self.4.model(), self.5.model(), self.6.model(), self.7.model(), self.8.model(), self.9.model(), self.10.model(), self.11.model())
    }

    open spec fn model_wf(m: (T0::M, T1::M, T2::M, T3::M, T4::M, T5::M, T6::M, T7::M, T8::M, T9::M, T10::M, T11::M)) -> bool {
        T0::model_wf(m.0) && T1::model_wf(m.1) && T2::model_wf(m.2) && T3::model_wf(m.3) && T4::model_wf(m.4) && T5::model_wf(m.5) && T6::model_wf(m.6) && T7::model_wf(m.7) && T8::model_wf(m.8) && T9::model_wf(m.9) && T10::model_wf(m.10) && T11::model_wf(m.11)
    }
}

impl<T0: Encode, T1: Encode, T2: Encode, T3: Encode, T4: Encode, T5: Encode, T6: Encode, T7: Encode, T8: Encode, T9: Encode, T10: Encode, T11: Encode> Encode for (T0, T1, T2, T3, T4, T5, T6, T7, T8, T9, T10, T11) {
    open spec fn spec_encode(m: (T0::M, T1::M, T2::M, T3::M, T4::M, T5::M, T6::M, T7::M, T8::M, T9::M, T10::M, T11::M)) -> (Seq<u8>, Option<EncodeError>) {
        encode_then(T0::spec_encode(m.0), <(T1, T2, T3, T4, T5, T6, T7, T8, T9, T10, T11) as Encode>::spec_encode((m.1, m.2, m.3, m.4, m.5, m.6, m.7, m.8, m.9, m.10, m.11)))
    }

    #[verifier::rlimit(100)]
    fn encode(&self, stream: &mut OStream) -> (r: Result<(), EncodeError>) {
        let ghost s0 = *stream;
        proof {
            let e0 = T0::spec_encode(self.0.model());
            let e1 = T1::spec_encode(self.1.model());
            let e2 = T2::spec_encode(self.2.model());
            let e3 = T3::spec_encode(self.3.model());
            let e4 = T4::spec_encode(self.4.model());
            let e5 = T5::spec_encode(self.5.model());
            let e6 = T6::spec_encode(self.6.model());
            let e7 = T7::spec_encode(self.7.model());
            let e8 = T8::spec_encode(self.8.model());
            let e9 = T9::spec_encode(self.9.model());
            let e10 = T10::spec_encode(self.10.model());
            let e11 = T11::spec_encode(self.11.model());
            let l0 = e0;
            let l1 = encode_then(l0, e1);
            let l2 = encode_then(l1, e2);
            let l3 = encode_then(l2, e3);
            let l4 = encode_then(l3, e4);
            let l5 = encode_then(l4, e5);
            let l6 = encode_then(l5, e6);
            let l7 = encode_then(l6, e7);
            let l8 = encode_then(l7, e8);
            let l9 = encode_then(l8, e9);
            let l10 = encode_then(l9, e10);
            let l11 = encode_then(l10, e11);
            let r1 = <(T1, T2, T3, T4, T5, T6, T7, T8, T9, T10, T11) as Encode>::spec_encode((self.model().1, self.model().2, self.model().3, self.model().4, self.model().5, self.model().6, self.model().7, self.model().8, self.model().9, self.model().10, self.model().11));
            let r2 = <(T2, T3, T4, T5, T6, T7, T8, T9, T10, T11) as Encode>::spec_encode((self.model().2, self.model().3, self.model().4, self.model().5, self.model().6, self.model().7, self.model().8, self.model().9, self.model().10, self.model().11));
            let r3 = <(T3, T4, T5, T6, T7, T8, T9, T10, T11) as Encode>::spec_encode((self.model().3, self.model().4, self.model().5, self.model().6, self.model().7, self.model().8, self.model().9, self.model().10, self.model().11));
            let r4 = <(T4, T5, T6, T7, T8, T9, T10, T11) as Encode>::spec_encode((self.model().4, self.model().5, self.model().6, self.model().7, self.model().8, self.model().9, self.model().10, self.model().11));
            let r5 = <(T5, T6, T7, T8, T9, T10, T11) as Encode>::spec_encode((self.model().5, self.model().6, self.model().7, self.model().8, self.model().9, self.model().10, self.model().11));
            let r6 = <(T6, T7, T8, T9, T10, T11) as Encode>::spec_encode((self.model().6, self.model().7, self.model().8, self.model().9, self.model().10, self.model().11));
            let r7 = <(T7, T8, T9, T10, T11) as Encode>::spec_encode((self.model().7, self.model().8, self.model().9, self.model().10, self.model().11));
            let r8 = <(T8, T9, T10, T11) as Encode>::spec_encode((self.model().8, self.model().9, self.model().10, self.model().11));
            let r9 = <(T9, T10, T11) as Encode>::spec_encode((self.model().9, self.model().10, self.model().11));
            let r10 = <(T10, T11) as Encode>::spec_encode((self.model().10, self.model().11));
            let r11 = <(T11,) as Encode>::spec_encode((self.model().11,));
            assert(Self::spec_encode(self.model()) == encode_then(l0, r1));
            assert(r1 == encode_then(e1, r2));
            lemma_encode_then_assoc(l0, e1, r2);
            assert(r2 == encode_then(e2, r3));
            lemma_encode_then_assoc(l1, e2, r3);
            assert(r3 == encode_then(e3, r4));
            lemma_encode_then_assoc(l2, e3, r4);
            assert(r4 == encode_then(e4, r5));
            lemma_encode_then_assoc(l3, e4, r5);
            assert(r5 == encode_then(e5, r6));
            lemma_encode_then_assoc(l4, e5, r6);
            assert(r6 == encode_then(e6, r7));
            lemma_encode_then_assoc(l5, e6, r7);
            assert(r7 == encode_then(e7, r8));
            lemma_encode_then_assoc(l6, e7, r8);
            assert(r8 == encode_then(e8, r9));
            lemma_encode_then_assoc(l7, e8, r9);
            assert(r9 == encode_then(e9, r10));
            lemma_encode_then_assoc(l8, e9, r10);
            assert(r10 == encode_then(e10, r11));
            lemma_encode_then_assoc(l9, e10, r11);
            assert(r11 == e11);
            assert(Self::spec_encode(self.model()) == l11);
        }
        self.0.encode(stream)?;
        let ghost s1 = *stream;
        let r1 = self.1.encode(stream);
        proof {
            lemma_wrote_then(s0, s1, *stream, T0::spec_encode(self.0.model()).0, T1::spec_encode(self.1.model()).0);
        }
        r1?;
        let ghost s2 = *stream;
        let r2 = self.2.encode(stream);
        proof {
            lemma_wrote_then(s0, s2, *stream, encode_then(T0::spec_encode(self.0.model()), T1::spec_encode(self.1.model())).0, T2::spec_encode(self.2.model()).0);
        }
        r2?;
        let ghost s3 = *stream;
        let r3 = self.3.encode(stream);
        proof {
            lemma_wrote_then(s0, s3, *stream, encode_then(encode_then(T0::spec_encode(self.0.model()), T1::spec_encode(self.1.model())), T2::spec_encode(self.2.model())).0, T3::spec_encode(self.3.model()).0);
        }
        r3?;
        let ghost s4 = *stream;
        let r4 = self.4.encode(stream);
        proof {
            lemma_wrote_then(s0, s4, *stream, encode_then(encode_then(encode_then(T0::spec_encode(self.0.model()), T1::spec_encode(self.1.model())), T2::spec_encode(self.2.model())), T3::spec_encode(self.3.model())).0, T4::spec_encode(self.4.model()).0);
        }
        r4?;
        let ghost s5 = *stream;
        let r5 = self.5.encode(stream);
        proof {
            lemma_wrote_then(s0, s5, *stream, encode_then(encode_then(encode_then(encode_then(T0::spec_encode(self.0.model()), T1::spec_encode(self.1.model())), T2::spec_encode(self.2.model())), T3::spec_encode(self.3.model())), T4::spec_encode(self.4.model())).0, T5::spec_encode(self.5.model()).0);
        }
        r5?;
        let ghost s6 = *stream;
        let r6 = self.6.encode(stream);
        proof {
            lemma_wrote_then(s0, s6, *stream, encode_then(encode_then(encode_then(encode_then(encode_then(T0::spec_encode(self.0.model()), T1::spec_encode(self.1.model())), T2::spec_encode(self.2.model())), T3::spec_encode(self.3.model())), T4::spec_encode(self.4.model())), T5::spec_encode(self.5.model())).0, T6::spec_encode(self.6.model()).0);
        }
        r6?;
        let ghost s7 = *stream;
        let r7 = self.7.encode(stream);
        proof {
            lemma_wrote_then(s0, s7, *stream, encode_then(encode_then(encode_then(encode_then(encode_then(encode_then(T0::spec_encode(self.0.model()), T1::spec_encode(self.1.model())), T2::spec_encode(self.2.model())), T3::spec_encode(self.3.model())), T4::spec_encode(self.4.model())), T5::spec_encode(self.5.model())), T6::spec_encode(self.6.model())).0, T7::spec_encode(self.7.model()).0);
        }
        r7?;
        let ghost s8 = *stream;
        let r8 = self.8.encode(stream);
        proof {
            lemma_wrote_then(s0, s8, *stream, encode_then(encode_then(encode_then(encode_then(encode_then(encode_then(encode_then(T0::spec_encode(self.0.model()), T1::spec_encode(self.1.model())), T2::spec_encode(self.2.model())), T3::spec_encode(self.3.model())), T4::spec_encode(self.4.model())), T5::spec_encode(self.5.model())), T6::spec_encode(self.6.model())), T7::spec_encode(self.7.model())).0, T8::spec_encode(self.8.model()).0);
        }
        r8?;
        let ghost s9 = *stream;
        let r9 = self.9.encode(stream);
        proof {
            lemma_wrote_then(s0, s9, *stream, encode_then(encode_then(encode_then(encode_then(encode_then(encode_then(encode_then(encode_then(T0::spec_encode(self.0.model()), T1::spec_encode(self.1.model())), T2::spec_encode(self.2.model())), T3::spec_encode(self.3.model())), T4::spec_encode(self.4.model())), T5::spec_encode(self.5.model())), T6::spec_encode(self.6.model())), T7::spec_encode(self.7.model())), T8::spec_encode(self.8.model())).0, T9::spec_encode(self.9.model()).0);
        }
        r9?;
        let ghost s10 = *stream;
        let r10 = self.10.encode(stream);
        proof {
            lemma_wrote_then(s0, s10, *stream, encode_then(encode_then(encode_then(encode_then(encode_then(encode_then(encode_then(encode_then(encode_then(T0::spec_encode(self.0.model()), T1::spec_encode(self.1.model())), T2::spec_encode(self.2.model())), T3::spec_encode(self.3.model())), T4::spec_encode(self.4.model())), T5::spec_encode(self.5.model())), T6::spec_encode(self.6.model())), T7::spec_encode(self.7.model())), T8::spec_encode(self.8.model())), T9::spec_encode(self.9.model())).0, T10::spec_encode(self.10.model()).0);
        }
        r10?;
        let ghost s11 = *stream;
        let r11 = self.11.encode(stream);
        proof {
            lemma_wrote_then(s0, s11, *stream, encode_then(encode_then(encode_then(encode_then(encode_then(encode_then(encode_then(encode_then(encode_then(encode_then(T0::spec_encode(self.0.model()), T1::spec_encode(self.1.model())), T2::spec_encode(self.2.model())), T3::spec_encode(self.3.model())), T4::spec_encode(self.4.model())), T5::spec_encode(self.5.model())), T6::spec_encode(self.6.model())), T7::spec_encode(self.7.model())), T8::spec_encode(self.8.model())), T9::spec_encode(self.9.model())), T10::spec_encode(self.10.model())).0, T11::spec_encode(self.11.model()).0);
        }
        r11
    }
}

impl<T0: Decode, T1: Decode, T2: Decode, T3: Decode, T4: Decode, T5: Decode, T6: Decode, T7: Decode, T8: Decode, T9: Decode, T10: Decode, T11: Decode> Decode for (T0, T1, T2, T3, T4, T5, T6, T7, T8, T9, T10, T11) {
    open spec fn spec_decode(bytes: Seq<u8>) -> Decoding<(T0::M, T1::M, T2::M, T3::M, T4::M, T5::M, T6::M, T7::M, T8::M, T9::M, T10::M, T11::M)> {
        decode_then(
            T0::spec_decode(bytes),
            bytes,
            |v0: T0::M, r: Seq<u8>|
                match <(T1, T2, T3, T4, T5, T6, T7, T8, T9, T10, T11) as Decode>::spec_decode(r) {
                    None => None,
                    Some((Err(e), k)) => Some((Err(e), k)),
                    Some((Ok(t), k)) => Some((Ok((v0, t.0, t.1, t.2, t.3, t.4, t.5, t.6, t.7, t.8, t.9, t.10)), k)),
                },
        )
    }

    fn decode(stream: &mut IStream) -> (r: Result<(T0, T1, T2, T3, T4, T5, T6, T7, T8, T9, T10, T11), DecodeError>) {
        let ghost s0 = *stream;
        let v0 = T0::decode(stream)?;
        let ghost s1 = *stream;
        let rt = <(T1, T2, T3, T4, T5, T6, T7, T8, T9, T10, T11) as Decode>::decode(stream);
        proof {
            lemma_decoded_then(s0, s1, *stream, T0::spec_decode(s0.rest()), Ok::<T0, DecodeError>(v0), <(T1, T2, T3, T4, T5, T6, T7, T8, T9, T10, T11) as Decode>::spec_decode(s1.rest()), rt);
        }
        let t = rt?;
        Ok((v0, t.0, t.1, t.2, t.3, t.4, t.5, t.6, t.7, t.8, t.9, t.10))
    }
}

impl<T0: Roundtrip, T1: Roundtrip, T2: Roundtrip, T3: Roundtrip, T4: Roundtrip, T5: Roundtrip, T6: Roundtrip, T7: Roundtrip, T8: Roundtrip, T9: Roundtrip, T10: Roundtrip, T11: Roundtrip> Roundtrip for (T0, T1, T2, T3, T4, T5, T6, T7, T8, T9, T10, T11) {
    proof fn lemma_roundtrip(m: (T0::M, T1::M, T2::M, T3::M, T4::M, T5::M, T6::M, T7::M, T8::M, T9::M, T10::M, T11::M), rest: Seq<u8>) {
        let t = (m.1, m.2, m.3, m.4, m.5, m.6, m.7, m.8, m.9, m.10, m.11);
        let e0 = T0::spec_encode(m.0).0;
        let et = <(T1, T2, T3, T4, T5, T6, T7, T8, T9, T10, T11) as Encode>::spec_encode(t).0;
        T0::lemma_roundtrip(m.0, et + rest);
        <(T1, T2, T3, T4, T5, T6, T7, T8, T9, T10, T11) as Roundtrip>::lemma_roundtrip(t, rest);
        assert(e0 + et + rest =~= e0 + (et + rest));
        assert((e0 + (et + rest)).skip(e0.len() as int) =~= et + rest);
    }
}

} // verus!
