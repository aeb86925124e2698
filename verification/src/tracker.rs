//! Tracker query construction: the percent-encoded info-hash, the
//! `key=value` parameter string, and the full announce URL asked at
//! startup. The HTTP round trip itself stays with the caller.

use vstd::prelude::*;

use vstd::string::StringExecFns;

use crate::metainfo::MetaInfo;
use crate::util::{spec_decimal, u64_to_string};

verus! {

/// Failures while retrieving the peer list from the tracker.
#[derive(Debug, Clone, Copy, PartialEq, Eq, Structural)]
pub enum TrackerError {
    RetrievePeerError,
}

/// Whether the byte is percent-encoded for a query under url's
/// `DEFAULT_ENCODE_SET`: controls and non-ASCII bytes, space, double quote,
/// hash, angle brackets, backtick, question mark and curly brackets.
pub open spec fn spec_needs_escape(b: u8) -> bool {
    ||| b < 0x20
    ||| b > 0x7e
    ||| b == 0x20
    ||| b == 0x22
    ||| b == 0x23
    ||| b == 0x3c
    ||| b == 0x3e
    ||| b == 0x60
    ||| b == 0x3f
    ||| b == 0x7b
    ||| b == 0x7d
}

/// The uppercase hexadecimal digit for a value below sixteen.
pub open spec fn spec_hex_digit(d: int) -> char {
    if d < 10 {
        ((48 + d) as u8) as char
    } else {
        ((55 + d) as u8) as char
    }
}

/// The percent-encoding of bytes: an escaped byte becomes `%` and two
/// uppercase hex digits, any other byte its ASCII character.
pub open spec fn spec_percent_encode(bytes: Seq<u8>) -> Seq<char>
    decreases bytes.len(),
{
    if bytes.len() == 0 {
        seq![]
    } else {
        let b = bytes[0];
        (if spec_needs_escape(b) {
            seq!['%', spec_hex_digit(b as int / 16), spec_hex_digit(b as int % 16)]
        } else {
            seq![b as char]
        }) + spec_percent_encode(bytes.skip(1))
    }
}

/// Relies on `url::percent_encoding::percent_encode` with
/// `DEFAULT_ENCODE_SET`: every byte of the set becomes `%` and two
/// uppercase hex digits, every other byte stays as its ASCII character.
#[verifier::external_body]
fn percent_encode_default(bytes: &[u8]) -> (r: String)
    ensures
        r@ == spec_percent_encode(bytes@),
{
    url::percent_encoding::percent_encode(bytes, url::percent_encoding::DEFAULT_ENCODE_SET)
        .collect()
}

/// The views of a parameter list's keys and values.
pub open spec fn spec_param_views(ps: Seq<(&str, &str)>) -> Seq<(Seq<char>, Seq<char>)> {
    ps.map_values(|kv: (&str, &str)| (kv.0@, kv.1@))
}

/// `key=value` pairs joined with `&`.
pub open spec fn spec_query_pairs(ps: Seq<(Seq<char>, Seq<char>)>) -> Seq<char>
    decreases ps.len(),
{
    if ps.len() == 0 {
        seq![]
    } else if ps.len() == 1 {
        ps[0].0 + seq!['='] + ps[0].1
    } else {
        spec_query_pairs(ps.drop_last()) + seq!['&'] + ps.last().0 + seq!['='] + ps.last().1
    }
}

/// Encodes parameters into a query string: `key=value` joined with `&`.
pub fn parameterize(parameters: Vec<(&str, &str)>) -> (r: String)
    ensures
        r@ == spec_query_pairs(spec_param_views(parameters@)),
{
    let mut query = String::new();
    proof {
        reveal_strlit("=");
        reveal_strlit("&");
    }
    let mut i: usize = 0;
    while i < parameters.len()
        invariant
            i <= parameters@.len(),
            "="@ =~= seq!['='],
            "&"@ =~= seq!['&'],
            query@ == spec_query_pairs(spec_param_views(parameters@).take(i as int)),
        decreases parameters@.len() - i,
    {
        let ghost prefix = spec_param_views(parameters@).take(i as int);
        if i > 0 {
            query.append("&");
        }
        let pair = parameters[i];
        query.append(pair.0);
        query.append("=");
        query.append(pair.1);
        i += 1;
        proof {
            let views = spec_param_views(parameters@);
            let next = views.take(i as int);
            assert(next.drop_last() =~= prefix);
            assert(next.last() == views[i - 1]);
            if i == 1 {
                assert(next[0] == views[0]);
                assert(query@ =~= spec_query_pairs(next));
            } else {
                assert(query@ =~= spec_query_pairs(next));
            }
        }
    }
    proof {
        assert(spec_param_views(parameters@).take(parameters@.len() as int) =~= spec_param_views(
            parameters@,
        ));
    }
    query
}

/// The query string announced to the tracker at startup: the
/// percent-encoded info-hash, our peer id and port, zero bytes uploaded and
/// downloaded, the whole payload left, asking for the compact peer format
/// with the started event.
pub open spec fn spec_tracker_query(m: MetaInfo, peer_id: Seq<char>, port: Seq<char>) -> Seq<
    char,
> {
    spec_query_pairs(
        seq![
            ("info_hash"@, spec_percent_encode(m.info_hash@)),
            ("peer_id"@, peer_id),
            ("port"@, port),
            ("uploaded"@, "0"@),
            ("downloaded"@, "0"@),
            ("left"@, spec_decimal(m.info.length as nat)),
            ("compact"@, "1"@),
            ("event"@, "started"@),
        ],
    )
}

/// The full tracker GET URL: the announce address, `?`, and the startup
/// query parameters.
pub fn tracker_url(metainfo: &MetaInfo, peer_id: &str, port: &str) -> (r: String)
    ensures
        r@ == metainfo.announce@ + seq!['?'] + spec_tracker_query(*metainfo, peer_id@, port@),
{
    let percent_hash = percent_encode_default(metainfo.info_hash.as_slice());
    let left = u64_to_string(metainfo.info.length);
    let mut parameters: Vec<(&str, &str)> = Vec::new();
    parameters.push(("info_hash", percent_hash.as_str()));
    parameters.push(("peer_id", peer_id));
    parameters.push(("port", port));
    parameters.push(("uploaded", "0"));
    parameters.push(("downloaded", "0"));
    parameters.push(("left", left.as_str()));
    parameters.push(("compact", "1"));
    parameters.push(("event", "started"));
    let query = parameterize(parameters);
    proof {
        assert(spec_param_views(parameters@) =~= seq![
            ("info_hash"@, spec_percent_encode(metainfo.info_hash@)),
            ("peer_id"@, peer_id@),
            ("port"@, port@),
            ("uploaded"@, "0"@),
            ("downloaded"@, "0"@),
            ("left"@, spec_decimal(metainfo.info.length as nat)),
            ("compact"@, "1"@),
            ("event"@, "started"@),
        ]);
        reveal_strlit("?");
    }
    let mut url = metainfo.announce.as_str().to_owned();
    url.append("?");
    url.append(query.as_str());
    proof {
        assert(url@ =~= metainfo.announce@ + seq!['?'] + spec_tracker_query(
            *metainfo,
            peer_id@,
            port@,
        ));
    }
    url
}

} // verus!
