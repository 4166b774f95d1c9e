//! The Kinesis `PutRecord` JSON envelope: stream-identity classification,
//! base64 framing of the payload, and serialization.

use vstd::prelude::*;
use vstd::string::StringExecFns;
use vstd::utf8::encode_utf8;

use crate::b64::{b64_decode, b64_of, base64_encode};
use crate::json::{append_escaped, json_escape, json_plain, lemma_parse_member, parse_member, parse_object3};
use crate::settings::Settings;

verus! {

/// Wire envelope for one record. Exactly one of `stream_arn` / `stream_name`
/// is meant to be non-empty; an empty one is left out of the JSON entirely.
pub struct KinesisRequestBody {
    pub data: String,
    pub partition_key: String,
    pub stream_arn: String,
    pub stream_name: String,
}

/// A stream identity is an ARN exactly when it starts with `arn:`.
pub open spec fn is_arn(stream: Seq<char>) -> bool {
    stream.len() >= 4 && stream.subrange(0, 4) == "arn:"@
}

/// The JSON object for the envelope: `Data` and `PartitionKey` always, each
/// stream field only when non-empty, all values written as escaped JSON
/// strings, in this fixed field order.
pub open spec fn kinesis_body_json(
    data: Seq<char>,
    pk: Seq<char>,
    arn: Seq<char>,
    name: Seq<char>,
) -> Seq<char> {
    "{\"Data\":\""@ + json_escape(data) + "\",\"PartitionKey\":\""@ + json_escape(pk) + "\""@ + (
    if arn.len() > 0 {
        ",\"StreamARN\":\""@ + json_escape(arn) + "\""@
    } else {
        Seq::<char>::empty()
    }) + (if name.len() > 0 {
        ",\"StreamName\":\""@ + json_escape(name) + "\""@
    } else {
        Seq::<char>::empty()
    }) + "}"@
}

/// The body produced for a payload under a given partition key and stream
/// identity: the payload's bytes are base64-framed into `Data`, and the
/// stream goes under `StreamARN` or `StreamName` by the `arn:` prefix rule.
pub open spec fn body_view(payload: Seq<char>, pk: Seq<char>, stream: Seq<char>) -> Seq<char> {
    if is_arn(stream) {
        kinesis_body_json(b64_of(encode_utf8(payload)), pk, stream, Seq::<char>::empty())
    } else {
        kinesis_body_json(b64_of(encode_utf8(payload)), pk, Seq::<char>::empty(), stream)
    }
}

/// Whether a stream identity carries the `arn:` prefix.
pub fn stream_is_arn(s: &str) -> (r: bool)
    ensures
        r == is_arn(s@),
{
    proof {
        reveal_strlit("arn:");
    }
    if s.unicode_len() < 4 {
        return false;
    }
    let r = s.get_char(0) == 'a' && s.get_char(1) == 'r' && s.get_char(2) == 'n' && s.get_char(3)
        == ':';
    proof {
        if r {
            assert(s@.subrange(0, 4) =~= "arn:"@);
        } else {
            assert(s@.subrange(0, 4)[0] == s@[0]);
            assert(s@.subrange(0, 4)[1] == s@[1]);
            assert(s@.subrange(0, 4)[2] == s@[2]);
            assert(s@.subrange(0, 4)[3] == s@[3]);
        }
    }
    r
}

impl KinesisRequestBody {
    /// Writes the envelope as its JSON object.
    pub fn to_json(&self) -> (r: String)
        ensures
            r@ == kinesis_body_json(
                self.data@,
                self.partition_key@,
                self.stream_arn@,
                self.stream_name@,
            ),
    {
        let mut out = String::from_str("{\"Data\":\"");
        append_escaped(&mut out, self.data.as_str());
        out.append("\",\"PartitionKey\":\"");
        append_escaped(&mut out, self.partition_key.as_str());
        out.append("\"");
        if !self.stream_arn.as_str().is_empty() {
            out.append(",\"StreamARN\":\"");
            append_escaped(&mut out, self.stream_arn.as_str());
            out.append("\"");
        }
        if !self.stream_name.as_str().is_empty() {
            out.append(",\"StreamName\":\"");
            append_escaped(&mut out, self.stream_name.as_str());
            out.append("\"");
        }
        out.append("}");
        proof {
            assert(out@ =~= kinesis_body_json(
                self.data@,
                self.partition_key@,
                self.stream_arn@,
                self.stream_name@,
            ));
        }
        out
    }
}

/// The four member names are plain characters: no escaping touches them.
proof fn lemma_keys_plain()
    ensures
        forall|i: int| 0 <= i < "Data"@.len() ==> json_plain(#[trigger] "Data"@[i]),
        forall|i: int|
            0 <= i < "PartitionKey"@.len() ==> json_plain(#[trigger] "PartitionKey"@[i]),
        forall|i: int| 0 <= i < "StreamARN"@.len() ==> json_plain(#[trigger] "StreamARN"@[i]),
        forall|i: int| 0 <= i < "StreamName"@.len() ==> json_plain(#[trigger] "StreamName"@[i]),
{
    reveal_strlit("Data");
    reveal_strlit("PartitionKey");
    reveal_strlit("StreamARN");
    reveal_strlit("StreamName");
}

/// The envelope reads back as a JSON object of exactly three string members:
/// `Data` holding the base64 of the payload's bytes — which decodes back to
/// those bytes — `PartitionKey` holding the partition key verbatim, and, by
/// the `arn:` prefix rule, exactly one of `StreamARN` / `StreamName` holding
/// the stream identity.
#[verifier::rlimit(100)]
pub proof fn lemma_body_parses(payload: Seq<char>, pk: Seq<char>, stream: Seq<char>)
    requires
        stream.len() > 0,
    ensures
        ({
            let r = parse_object3(body_view(payload, pk, stream));
            &&& r is Some
            &&& ({
                let (first, second, third) = r->0;
                &&& first == ("Data"@, b64_of(encode_utf8(payload)))
                &&& second == ("PartitionKey"@, pk)
                &&& third == ((if is_arn(stream) {
                    "StreamARN"@
                } else {
                    "StreamName"@
                }), stream)
                &&& b64_decode(first.1) == encode_utf8(payload)
            })
        }),
{
    lemma_keys_plain();
    crate::b64::lemma_b64_round_trip(encode_utf8(payload));
    reveal_strlit("Data");
    reveal_strlit("PartitionKey");
    reveal_strlit("StreamARN");
    reveal_strlit("StreamName");
    reveal_strlit("{\"Data\":\"");
    reveal_strlit("\",\"PartitionKey\":\"");
    reveal_strlit("\"");
    reveal_strlit(",\"StreamARN\":\"");
    reveal_strlit(",\"StreamName\":\"");
    reveal_strlit("}");
    let s = body_view(payload, pk, stream);
    let data = b64_of(encode_utf8(payload));
    let key3 = if is_arn(stream) {
        "StreamARN"@
    } else {
        "StreamName"@
    };
    let m3 = seq!['"'] + key3 + seq!['"', ':', '"'] + json_escape(stream) + seq!['"'] + seq!['}'];
    let m2 = seq!['"'] + "PartitionKey"@ + seq!['"', ':', '"'] + json_escape(pk) + seq!['"'] + (
    seq![','] + m3);
    let m1 = seq!['"'] + "Data"@ + seq!['"', ':', '"'] + json_escape(data) + seq!['"'] + (seq![',']
        + m2);
    assert("{\"Data\":\""@ =~= seq!['{'] + seq!['"'] + "Data"@ + seq!['"', ':', '"']);
    assert("\",\"PartitionKey\":\""@ =~= seq!['"'] + seq![','] + seq!['"'] + "PartitionKey"@
        + seq!['"', ':', '"']);
    assert(",\"StreamARN\":\""@ =~= seq![','] + seq!['"'] + "StreamARN"@ + seq!['"', ':', '"']);
    assert(",\"StreamName\":\""@ =~= seq![','] + seq!['"'] + "StreamName"@ + seq!['"', ':', '"']);
    assert(s =~= seq!['{'] + m1);
    assert(s[0] == '{');
    assert(s.skip(1) =~= m1);
    lemma_parse_member("Data"@, data, seq![','] + m2);
    let c1: int = "Data"@.len() as int + json_escape(data).len() + 5;
    assert(parse_member(s.skip(1)) == Some(("Data"@, data, c1)));
    let r1 = s.skip(1 + c1);
    assert(r1 =~= seq![','] + m2);
    assert(r1[0] == ',');
    assert(r1.skip(1) =~= m2);
    lemma_parse_member("PartitionKey"@, pk, seq![','] + m3);
    let c2: int = "PartitionKey"@.len() as int + json_escape(pk).len() + 5;
    assert(parse_member(r1.skip(1)) == Some(("PartitionKey"@, pk, c2)));
    let r2 = r1.skip(1 + c2);
    assert(r2 =~= seq![','] + m3);
    assert(r2[0] == ',');
    assert(r2.skip(1) =~= m3);
    lemma_parse_member(key3, stream, seq!['}']);
    let c3: int = key3.len() as int + json_escape(stream).len() + 5;
    assert(parse_member(r2.skip(1)) == Some((key3, stream, c3)));
    let r3 = r2.skip(1 + c3);
    assert(r3 =~= seq!['}']);
    assert(r3.len() == 1 && r3[0] == '}');
}

impl Settings {
    /// Builds the JSON body that delivers `data` as one record: the payload
    /// base64-framed under `Data`, the partition key verbatim, and the
    /// configured stream under exactly one of `StreamARN` / `StreamName`.
    pub fn generate_body(&self, data: String) -> (r: String)
        ensures
            r@ == body_view(data@, self.kinesis_partition@, self.kinesis_stream@),
    {
        let arn = stream_is_arn(self.kinesis_stream.as_str());
        let body = KinesisRequestBody {
            data: base64_encode(data.as_str().as_bytes()),
            partition_key: self.kinesis_partition.clone(),
            stream_arn: if arn {
                self.kinesis_stream.clone()
            } else {
                String::new()
            },
            stream_name: if arn {
                String::new()
            } else {
                self.kinesis_stream.clone()
            },
        };
        body.to_json()
    }
}

} // verus!
