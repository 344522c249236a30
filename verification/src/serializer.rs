//! The pluggable wire-encoding abstraction: a capability contract mapping a
//! typed message to and from an opaque byte stream, selected per message type.
use vstd::prelude::*;

verus! {

/// A failure while encoding an outbound message.
#[derive(Debug, Clone)]
pub enum EncodeError {
    /// The default binary codec rejected the message.
    Bincode(String),
    /// The structured-binary codec rejected the message.
    MessagePack(String),
    /// The structured-text codec rejected the message.
    Json(String),
    /// The outbound buffer could not be written.
    IO(String),
    /// An encoder-specific failure.
    Custom(String),
}

/// A failure while reconstructing an inbound message.
#[derive(Debug, Clone)]
pub enum DecodeError {
    /// The default binary codec could not read the buffer back.
    Bincode(String),
    /// The structured-binary codec could not read the buffer back.
    MessagePack(String),
    /// The structured-text codec could not read the buffer back.
    Json(String),
    /// The inbound buffer could not be read.
    IO(String),
    /// A decoder-specific failure.
    Custom(String),
}

/// The message buffer a serializer works against: the byte stream of exactly
/// one in-flight message, with a read cursor. The host supplies one such
/// buffer implicitly around each send or receive; there is exactly one
/// "current" buffer at a time.
#[derive(Debug)]
pub struct MessageRw {
    /// The bytes of the current message.
    pub data: Vec<u8>,
    /// How many bytes of the message have been read back so far.
    pub pos: usize,
}

impl MessageRw {
    /// The read cursor never runs past the end of the buffer.
    pub open spec fn wf(self) -> bool {
        self.pos <= self.data.len()
    }

    /// The bytes not yet consumed by the reader.
    pub open spec fn remaining(self) -> Seq<u8> {
        self.data@.subrange(self.pos as int, self.data@.len() as int)
    }

    /// A fresh, empty message buffer.
    pub fn new() -> (w: MessageRw)
        ensures
            w.wf(),
            w.data@ == Seq::<u8>::empty(),
            w.pos == 0,
    {
        MessageRw { data: Vec::new(), pos: 0 }
    }

    /// Read up to `count` bytes from the cursor onward, advancing the cursor.
    pub fn read(&mut self, count: usize) -> (out: Vec<u8>)
        requires
            old(self).wf(),
        ensures
            final(self).wf(),
            final(self).data == old(self).data,
            final(self).pos == old(self).pos + out.len(),
            out@ == old(self).data@.subrange(
                old(self).pos as int,
                old(self).pos + out.len(),
            ),
            out.len() == if count <= old(self).data.len() - old(self).pos {
                count as int
            } else {
                old(self).data.len() - old(self).pos
            },
    {
        let mut n: usize = count;
        let rem = self.data.len() - self.pos;
        if n > rem {
            n = rem;
        }
        let mut out: Vec<u8> = Vec::new();
        let mut i: usize = 0;
        while i < n
            invariant
                i <= n,
                old(self).pos + n <= old(self).data.len(),
                self.data == old(self).data,
                self.pos == old(self).pos,
                out.len() == i,
                out@ == old(self).data@.subrange(old(self).pos as int, old(self).pos + i),
            decreases n - i,
        {
            let b = self.data[self.pos + i];
            out.push(b);
            proof {
                assert(out@ =~= old(self).data@.subrange(
                    old(self).pos as int,
                    old(self).pos + i + 1,
                ));
            }
            i = i + 1;
        }
        self.pos = self.pos + n;
        out
    }

    /// Append the given bytes to the end of the buffer.
    pub fn write(&mut self, buf: &[u8]) -> (n: usize)
        requires
            old(self).data.len() + buf.len() <= usize::MAX,
        ensures
            final(self).data@ == old(self).data@ + buf@,
            final(self).pos == old(self).pos,
            n == buf.len(),
    {
        let mut i: usize = 0;
        while i < buf.len()
            invariant
                i <= buf.len(),
                self.pos == old(self).pos,
                self.data@ == old(self).data@ + buf@.subrange(0, i as int),
            decreases buf.len() - i,
        {
            let b = buf[i];
            self.data.push(b);
            proof {
                assert(self.data@ =~= old(self).data@ + buf@.subrange(0, i + 1));
            }
            i = i + 1;
        }
        proof {
            assert(buf@.subrange(0, buf@.len() as int) =~= buf@);
        }
        buf.len()
    }

    /// Writers are unbuffered: flushing changes nothing.
    pub fn flush(&mut self)
        ensures
            *final(self) == *old(self),
    {
    }
}

/// The capability contract of a wire encoding: `encode` writes the encoded
/// form of a message into the current outbound buffer, `decode` reconstructs
/// a message from the remaining bytes of the current inbound buffer.
///
/// The contract is stated over the message's abstract value (`DeepView`):
/// `enc_spec` names the byte stream an accepted message encodes to, and
/// `decode` is exact on every buffer holding exactly such a stream — which is
/// what makes the round trip law [`round_trip`] provable for every
/// implementation.
pub trait Serializer<M: DeepView> {
    /// Whether the encoder accepts a message with this abstract value.
    spec fn enc_ok(m: M::V) -> bool;

    /// The byte stream that encoding an accepted message writes.
    spec fn enc_spec(m: M::V) -> Seq<u8>;

    /// The schema/version discriminator of this (message type, encoding)
    /// pair, carried alongside anything published about a process that
    /// exchanges such messages — a lookup made at a different discriminator
    /// can then never alias it. Distinct pairs must declare distinct
    /// discriminators.
    spec fn schema_spec() -> Seq<char>;

    /// The discriminator as a value to publish.
    fn schema() -> (s: String)
        ensures
            s@ == Self::schema_spec(),
    ;

    /// Write the encoded form of `message` to the current outbound buffer.
    fn encode(message: &M, w: &mut MessageRw) -> (r: Result<(), EncodeError>)
        requires
            old(w).wf(),
        ensures
            final(w).wf(),
            final(w).pos == old(w).pos,
            r is Ok <==> Self::enc_ok(message.deep_view()),
            r is Ok ==> final(w).data@ == old(w).data@ + Self::enc_spec(message.deep_view()),
            r is Err ==> final(w).data@ == old(w).data@,
    ;

    /// Reconstruct a message from the remaining bytes of the inbound buffer.
    fn decode(r: &mut MessageRw) -> (res: Result<M, DecodeError>)
        requires
            old(r).wf(),
        ensures
            final(r).wf(),
            final(r).data == old(r).data,
            old(r).pos <= final(r).pos,
            forall|mv: M::V|
                (old(r).remaining() == #[trigger] Self::enc_spec(mv) && Self::enc_ok(mv))
                    ==> res is Ok && res.unwrap().deep_view() == mv,
    ;
}

/// Law: for any serializer `S` and any message its contract accepts, decoding
/// the bytes that encoding wrote through the shared buffer yields a message
/// equal to the original.
pub fn round_trip<M: DeepView, S: Serializer<M>>(message: M) -> (r: M)
    requires
        S::enc_ok(message.deep_view()),
    ensures
        r.deep_view() == message.deep_view(),
{
    let mut w = MessageRw::new();
    match S::encode(&message, &mut w) {
        Ok(()) => {},
        Err(_) => {
            return vstd::pervasive::unreached();
        },
    }
    proof {
        assert(w.remaining() =~= S::enc_spec(message.deep_view()));
    }
    match S::decode(&mut w) {
        Ok(m) => m,
        Err(_) => vstd::pervasive::unreached(),
    }
}

/// The encoded stream the default binary codec produces for an integer.
pub uninterp spec fn bincode_i64_bytes(v: i64) -> Seq<u8>;

/// The encoded stream the default binary codec produces for a string.
pub uninterp spec fn bincode_string_bytes(s: Seq<char>) -> Seq<u8>;

/// The encoded stream the structured-text codec produces for an integer.
pub uninterp spec fn json_i64_bytes(v: i64) -> Seq<u8>;

/// The encoded stream the structured-binary codec produces for an integer.
pub uninterp spec fn msgpack_i64_bytes(v: i64) -> Seq<u8>;

/// Relies on bincode::serialize (default configuration): the returned bytes
/// are a function of the integer alone, and serializing an integer into a
/// byte vector cannot fail.
#[verifier::external_body]
fn bincode_write_i64(v: i64, w: &mut MessageRw) -> (r: Result<(), EncodeError>)
    ensures
        r is Ok,
        final(w).pos == old(w).pos,
        final(w).data@ == old(w).data@ + bincode_i64_bytes(v),
{
    match bincode::serialize(&v) {
        Ok(b) => {
            w.data.extend_from_slice(&b);
            Ok(())
        },
        Err(e) => Err(EncodeError::Bincode(format!("{}", e))),
    }
}

/// Relies on bincode::deserialize: reading a buffer that bincode::serialize
/// produced for an integer yields that integer back. The cursor is moved to
/// the end of the buffer, which holds exactly one message.
#[verifier::external_body]
fn bincode_read_i64(w: &mut MessageRw) -> (res: Result<i64, DecodeError>)
    requires
        old(w).wf(),
    ensures
        final(w).data == old(w).data,
        final(w).pos == final(w).data.len(),
        forall|v: i64| old(w).remaining() == #[trigger] bincode_i64_bytes(v)
            ==> res is Ok && res.unwrap() == v,
{
    let r = bincode::deserialize::<i64>(&w.data[w.pos..])
        .map_err(|e| DecodeError::Bincode(format!("{}", e)));
    w.pos = w.data.len();
    r
}

/// Relies on bincode::serialize (default configuration): the returned bytes
/// are a function of the string's characters alone, and serializing a string
/// into a byte vector cannot fail.
#[verifier::external_body]
fn bincode_write_string(s: &String, w: &mut MessageRw) -> (r: Result<(), EncodeError>)
    ensures
        r is Ok,
        final(w).pos == old(w).pos,
        final(w).data@ == old(w).data@ + bincode_string_bytes(s@),
{
    match bincode::serialize(s) {
        Ok(b) => {
            w.data.extend_from_slice(&b);
            Ok(())
        },
        Err(e) => Err(EncodeError::Bincode(format!("{}", e))),
    }
}

/// Relies on bincode::deserialize: reading a buffer that bincode::serialize
/// produced for a string yields a string with the same characters. The cursor
/// is moved to the end of the buffer, which holds exactly one message.
#[verifier::external_body]
fn bincode_read_string(w: &mut MessageRw) -> (res: Result<String, DecodeError>)
    requires
        old(w).wf(),
    ensures
        final(w).data == old(w).data,
        final(w).pos == final(w).data.len(),
        forall|s: Seq<char>| old(w).remaining() == #[trigger] bincode_string_bytes(s)
            ==> res is Ok && res.unwrap()@ == s,
{
    let r = bincode::deserialize::<String>(&w.data[w.pos..])
        .map_err(|e| DecodeError::Bincode(format!("{}", e)));
    w.pos = w.data.len();
    r
}

/// Relies on serde_json::to_vec: the returned bytes are a function of the
/// integer alone, and writing an integer as a number literal cannot fail.
#[verifier::external_body]
fn json_write_i64(v: i64, w: &mut MessageRw) -> (r: Result<(), EncodeError>)
    ensures
        r is Ok,
        final(w).pos == old(w).pos,
        final(w).data@ == old(w).data@ + json_i64_bytes(v),
{
    match serde_json::to_vec(&v) {
        Ok(b) => {
            w.data.extend_from_slice(&b);
            Ok(())
        },
        Err(e) => Err(EncodeError::Json(format!("{}", e))),
    }
}

/// Relies on serde_json::from_slice: parsing the number literal that
/// serde_json::to_vec produced for an integer yields that integer back. The
/// cursor is moved to the end of the buffer, which holds exactly one message.
#[verifier::external_body]
fn json_read_i64(w: &mut MessageRw) -> (res: Result<i64, DecodeError>)
    requires
        old(w).wf(),
    ensures
        final(w).data == old(w).data,
        final(w).pos == final(w).data.len(),
        forall|v: i64| old(w).remaining() == #[trigger] json_i64_bytes(v)
            ==> res is Ok && res.unwrap() == v,
{
    let r = serde_json::from_slice::<i64>(&w.data[w.pos..])
        .map_err(|e| DecodeError::Json(format!("{}", e)));
    w.pos = w.data.len();
    r
}

/// Relies on rmp_serde::to_vec: the returned bytes are a function of the
/// integer alone, and writing an integer into a byte vector cannot fail.
#[verifier::external_body]
fn msgpack_write_i64(v: i64, w: &mut MessageRw) -> (r: Result<(), EncodeError>)
    ensures
        r is Ok,
        final(w).pos == old(w).pos,
        final(w).data@ == old(w).data@ + msgpack_i64_bytes(v),
{
    match rmp_serde::to_vec(&v) {
        Ok(b) => {
            w.data.extend_from_slice(&b);
            Ok(())
        },
        Err(e) => Err(EncodeError::MessagePack(format!("{}", e))),
    }
}

/// Relies on rmp_serde::from_slice: reading the bytes that rmp_serde::to_vec
/// produced for an integer yields that integer back. The cursor is moved to
/// the end of the buffer, which holds exactly one message.
#[verifier::external_body]
fn msgpack_read_i64(w: &mut MessageRw) -> (res: Result<i64, DecodeError>)
    requires
        old(w).wf(),
    ensures
        final(w).data == old(w).data,
        final(w).pos == final(w).data.len(),
        forall|v: i64| old(w).remaining() == #[trigger] msgpack_i64_bytes(v)
            ==> res is Ok && res.unwrap() == v,
{
    let r = rmp_serde::from_slice::<i64>(&w.data[w.pos..])
        .map_err(|e| DecodeError::MessagePack(format!("{}", e)));
    w.pos = w.data.len();
    r
}

/// The default binary encoding.
#[derive(Hash, Debug)]
pub struct Bincode {}

impl Serializer<i64> for Bincode {
    open spec fn enc_ok(m: i64) -> bool {
        true
    }

    open spec fn enc_spec(m: i64) -> Seq<u8> {
        bincode_i64_bytes(m)
    }

    open spec fn schema_spec() -> Seq<char> {
        "bincode/i64#1"@
    }

    fn schema() -> (s: String) {
        "bincode/i64#1".to_owned()
    }

    fn encode(message: &i64, w: &mut MessageRw) -> (r: Result<(), EncodeError>) {
        bincode_write_i64(*message, w)
    }

    fn decode(r: &mut MessageRw) -> (res: Result<i64, DecodeError>) {
        bincode_read_i64(r)
    }
}

impl Serializer<String> for Bincode {
    open spec fn enc_ok(m: Seq<char>) -> bool {
        true
    }

    open spec fn enc_spec(m: Seq<char>) -> Seq<u8> {
        bincode_string_bytes(m)
    }

    open spec fn schema_spec() -> Seq<char> {
        "bincode/string#1"@
    }

    fn schema() -> (s: String) {
        "bincode/string#1".to_owned()
    }

    fn encode(message: &String, w: &mut MessageRw) -> (r: Result<(), EncodeError>) {
        bincode_write_string(message, w)
    }

    fn decode(r: &mut MessageRw) -> (res: Result<String, DecodeError>) {
        bincode_read_string(r)
    }
}

/// The optional structured-binary encoding.
#[derive(Debug, Hash)]
pub struct MessagePack {}

impl Serializer<i64> for MessagePack {
    open spec fn enc_ok(m: i64) -> bool {
        true
    }

    open spec fn enc_spec(m: i64) -> Seq<u8> {
        msgpack_i64_bytes(m)
    }

    open spec fn schema_spec() -> Seq<char> {
        "msgpack/i64#1"@
    }

    fn schema() -> (s: String) {
        "msgpack/i64#1".to_owned()
    }

    fn encode(message: &i64, w: &mut MessageRw) -> (r: Result<(), EncodeError>) {
        msgpack_write_i64(*message, w)
    }

    fn decode(r: &mut MessageRw) -> (res: Result<i64, DecodeError>) {
        msgpack_read_i64(r)
    }
}

/// The optional structured-text encoding.
#[derive(Debug, Hash)]
pub struct Json {}

impl Serializer<i64> for Json {
    open spec fn enc_ok(m: i64) -> bool {
        true
    }

    open spec fn enc_spec(m: i64) -> Seq<u8> {
        json_i64_bytes(m)
    }

    open spec fn schema_spec() -> Seq<char> {
        "json/i64#1"@
    }

    fn schema() -> (s: String) {
        "json/i64#1".to_owned()
    }

    fn encode(message: &i64, w: &mut MessageRw) -> (r: Result<(), EncodeError>) {
        json_write_i64(*message, w)
    }

    fn decode(r: &mut MessageRw) -> (res: Result<i64, DecodeError>) {
        json_read_i64(r)
    }
}

/// Law: the built-in encodings declare pairwise distinct schema
/// discriminators, so entries published for different (message type,
/// encoding) pairs never answer one another's lookups.
pub proof fn lemma_builtin_schemas_distinct()
    ensures
        <Bincode as Serializer<i64>>::schema_spec() != <Bincode as Serializer<
            String,
        >>::schema_spec(),
        <Bincode as Serializer<i64>>::schema_spec() != <Json as Serializer<i64>>::schema_spec(),
        <Bincode as Serializer<i64>>::schema_spec() != <MessagePack as Serializer<
            i64,
        >>::schema_spec(),
        <Bincode as Serializer<String>>::schema_spec() != <Json as Serializer<
            i64,
        >>::schema_spec(),
        <Bincode as Serializer<String>>::schema_spec() != <MessagePack as Serializer<
            i64,
        >>::schema_spec(),
        <Json as Serializer<i64>>::schema_spec() != <MessagePack as Serializer<
            i64,
        >>::schema_spec(),
{
    reveal_strlit("bincode/i64#1");
    reveal_strlit("bincode/string#1");
    reveal_strlit("json/i64#1");
    reveal_strlit("msgpack/i64#1");
    assert("bincode/i64#1"@.len() == 13);
    assert("bincode/string#1"@.len() == 16);
    assert("json/i64#1"@.len() == 10);
    assert("msgpack/i64#1"@.len() == 13);
    assert("bincode/i64#1"@[0] != "msgpack/i64#1"@[0]);
}

/// Marker for the optional schema-based encoding. No encoder is provided
/// here: that codec dispatches through per-message implementations of an
/// outside schema trait, which verified code cannot call through.
#[derive(Debug, Hash)]
pub struct ProtocolBuffers {}

} // verus!
