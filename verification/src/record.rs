//! The repository directory record published to the DHT, and its exact
//! wire encoding.

use vstd::prelude::*;

use vstd::utf8::encode_utf8;

use crate::json::{
    append_i64_dec, append_json_string, append_json_strings, append_slice, dec_signed, json_string,
    json_strings,
};

verus! {

/// The fields of a directory record, by view.
pub struct MegaRepoInfoView {
    pub origin: Seq<char>,
    pub name: Seq<char>,
    pub latest: Seq<char>,
    pub forks: Seq<Seq<char>>,
    pub timestamp: int,
}

/// The directory entry for one repository: the publishing peer, the
/// repository name, the hash of its current head, its known forks, and
/// the publication time.
#[derive(Debug)]
pub struct MegaRepoInfo {
    pub origin: String,
    pub name: String,
    pub latest: String,
    pub forks: Vec<String>,
    pub timestamp: i64,
}

impl View for MegaRepoInfo {
    type V = MegaRepoInfoView;

    open spec fn view(&self) -> MegaRepoInfoView {
        MegaRepoInfoView {
            origin: self.origin@,
            name: self.name@,
            latest: self.latest@,
            forks: self.forks.deep_view(),
            timestamp: self.timestamp as int,
        }
    }
}

/// The JSON encoding of a directory record:
/// `{"origin":…,"name":…,"latest":…,"forks":[…],"timestamp":…}`.
pub open spec fn record_json(r: MegaRepoInfoView) -> Seq<u8> {
    encode_utf8("{\"origin\":"@) + json_string(r.origin) + encode_utf8(",\"name\":"@)
        + json_string(r.name) + encode_utf8(",\"latest\":"@) + json_string(r.latest) + encode_utf8(
        ",\"forks\":["@,
    ) + json_strings(r.forks) + encode_utf8("],\"timestamp\":"@) + dec_signed(r.timestamp)
        + encode_utf8("}"@)
}

impl MegaRepoInfo {
    /// Serializes the record to its JSON bytes.
    pub fn to_json(&self) -> (v: Vec<u8>)
        ensures
            v@ == record_json(self@),
    {
        let mut out: Vec<u8> = Vec::new();
        append_slice(&mut out, "{\"origin\":".as_bytes());
        append_json_string(&mut out, self.origin.as_str());
        append_slice(&mut out, ",\"name\":".as_bytes());
        append_json_string(&mut out, self.name.as_str());
        append_slice(&mut out, ",\"latest\":".as_bytes());
        append_json_string(&mut out, self.latest.as_str());
        append_slice(&mut out, ",\"forks\":[".as_bytes());
        append_json_strings(&mut out, &self.forks);
        append_slice(&mut out, "],\"timestamp\":".as_bytes());
        append_i64_dec(&mut out, self.timestamp);
        append_slice(&mut out, "}".as_bytes());
        proof {
            assert(out@ =~= record_json(self@));
        }
        out
    }
}

} // verus!
