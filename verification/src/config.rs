//! The agent's configuration, read out of a connection string of
//! `Key=Value` parts separated by `;`.

use vstd::prelude::*;
use vstd::string::*;

use crate::split::{find_char, spec_find_char, spec_split_on, split_on};

verus! {

/// The value of the last `Key=Value` part of `parts` whose key is `key`;
/// empty when no part carries that key. A part without `=` carries no key.
/// The value begins after the first `=`, so it may itself contain `=`.
pub open spec fn spec_config_field(parts: Seq<Seq<char>>, key: Seq<char>) -> Seq<char>
    decreases parts.len(),
{
    if parts.len() == 0 {
        Seq::empty()
    } else {
        let last = parts.last();
        match spec_find_char(last, '=') {
            Some(i) => if last.subrange(0, i) == key {
                last.subrange(i + 1, last.len() as int)
            } else {
                spec_config_field(parts.drop_last(), key)
            },
            None => spec_config_field(parts.drop_last(), key),
        }
    }
}

/// The split of a connection string into its `;`-separated parts.
pub open spec fn spec_config_parts(s: Seq<char>) -> Seq<Seq<char>> {
    spec_split_on(s, ";"@)
}

pub struct Config {
    pub ikey: String,
    pub ingestion_endpoint: String,
    pub live_endpoint: String,
}

/// Reads the value for `key` out of the given parts, last occurrence
/// winning, as `spec_config_field` says.
fn field_of_parts(parts: &Vec<String>, key: &str) -> (r: String)
    ensures
        r@ == spec_config_field(parts@.map_values(|p: String| p@), key@),
{
    let ghost pview = parts@.map_values(|p: String| p@);
    let mut out: String = String::new();
    let mut found: bool = false;
    let n = parts.len();
    let mut i: usize = 0;
    proof {
        assert(pview.subrange(0, 0) =~= Seq::<Seq<char>>::empty());
    }
    while i < n
        invariant
            0 <= i <= n,
            n == parts@.len(),
            pview == parts@.map_values(|p: String| p@),
            !found ==> out@ == Seq::<char>::empty(),
            spec_config_field(pview.subrange(0, i as int), key@) == if found {
                out@
            } else {
                Seq::<char>::empty()
            },
        decreases n - i,
    {
        let p = &parts[i];
        proof {
            assert(pview.subrange(0, i as int + 1).last() == pview[i as int]);
            assert(pview.subrange(0, i as int + 1).drop_last() =~= pview.subrange(0, i as int));
        }
        match find_char(p.as_str(), '=') {
            Some(k) => {
                let plen = p.as_str().unicode_len();
                let part_key = p.as_str().substring_char(0, k);
                let key_s = String::from_str(key);
                let part_key_s = String::from_str(part_key);
                if part_key_s == key_s {
                    out = String::from_str(p.as_str().substring_char(k + 1, plen));
                    found = true;
                } else {
                    assert(pview[i as int].subrange(0, k as int) != key@);
                }
            },
            None => {},
        }
        i = i + 1;
    }
    assert(pview.subrange(0, n as int) =~= pview);
    out
}

impl Config {
    /// Reads the three endpoints out of a connection string; a key that the
    /// string does not carry is left empty.
    pub fn new(connstring: String) -> (r: Config)
        ensures
            r.ikey@ == spec_config_field(spec_config_parts(connstring@), "InstrumentationKey"@),
            r.ingestion_endpoint@ == spec_config_field(
                spec_config_parts(connstring@),
                "IngestionEndpoint"@,
            ),
            r.live_endpoint@ == spec_config_field(
                spec_config_parts(connstring@),
                "LiveEndpoint"@,
            ),
    {
        let parts = split_on(connstring.as_str(), ";");
        let ikey = field_of_parts(&parts, "InstrumentationKey");
        let ingestion_endpoint = field_of_parts(&parts, "IngestionEndpoint");
        let live_endpoint = field_of_parts(&parts, "LiveEndpoint");
        Config { ikey, ingestion_endpoint, live_endpoint }
    }
}

} // verus!
