//! The registration descriptor and its one-time registration URL: the
//! immutable record built at startup from the negotiated capabilities, and
//! the query-encoded URL the operator uses to register this instance.

use vstd::prelude::*;
use vstd::string::*;
use crate::text::{join_commas, spec_join_commas, u64_to_dec};
use crate::uci::is_dec_of;

verus! {

/// What an outside query-encoder returns for a list of key/value pairs:
/// opaque here, fixed by the pairs alone.
pub uninterp spec fn urlencoded_of(pairs: Seq<(Seq<char>, Seq<char>)>) -> Seq<char>;

/// The views of a list of string pairs.
pub open spec fn pairs_view(v: Seq<(String, String)>) -> Seq<(Seq<char>, Seq<char>)> {
    Seq::new(v.len(), |i: int| (v[i].0@, v[i].1@))
}

/// Relies on serde_urlencoded::to_string: query-encodes a sequence of
/// string pairs as `application/x-www-form-urlencoded`; on sequences of
/// string pairs it always succeeds.
#[verifier::external_body]
fn urlencode_pairs(pairs: &Vec<(String, String)>) -> (r: String)
    ensures
        r@ == urlencoded_of(pairs_view(pairs@)),
{
    serde_urlencoded::to_string(pairs.as_slice()).expect("string pairs always serialize")
}

/// The registration descriptor: built once at startup from the negotiated
/// capabilities and connection information; immutable; used solely to
/// produce the one-time registration URL.
pub struct ExternalWorkerOpts {
    pub url: String,
    pub secret: String,
    pub name: String,
    pub max_threads: u32,
    pub max_hash: u32,
    pub variants: Vec<String>,
    pub official_stockfish: bool,
}

/// The query pairs of the registration URL, in order: `url`, `secret`,
/// `name`, `maxThreads`, `maxHash`, then `variants` (comma-joined) only when
/// nonempty, then `officialStockfish` only when promised.
pub open spec fn spec_reg_pairs(
    o: ExternalWorkerOpts,
    ts: Seq<char>,
    hs: Seq<char>,
) -> Seq<(Seq<char>, Seq<char>)> {
    let base = seq![
        ("url"@, o.url@),
        ("secret"@, o.secret@),
        ("name"@, o.name@),
        ("maxThreads"@, ts),
        ("maxHash"@, hs),
    ];
    let with_variants = if o.variants@.len() > 0 {
        base.push(("variants"@, spec_join_commas(o.variants.deep_view())))
    } else {
        base
    };
    if o.official_stockfish {
        with_variants.push(("officialStockfish"@, "true"@))
    } else {
        with_variants
    }
}

impl ExternalWorkerOpts {
    /// The one-time registration URL: the fixed endpoint with the
    /// descriptor's fields query-encoded, the caps in decimal.
    pub fn registration_url(&self) -> (r: String)
        ensures
            exists|ts: Seq<char>, hs: Seq<char>|
                is_dec_of(ts, self.max_threads as nat) && is_dec_of(hs, self.max_hash as nat) && r@
                    == "https://lichess.org/analysis/external?"@ + urlencoded_of(
                    spec_reg_pairs(*self, ts, hs),
                ),
    {
        let mut pairs: Vec<(String, String)> = Vec::new();
        pairs.push((String::from_str("url"), self.url.clone()));
        pairs.push((String::from_str("secret"), self.secret.clone()));
        pairs.push((String::from_str("name"), self.name.clone()));
        let ts = u64_to_dec(self.max_threads as u64);
        pairs.push((String::from_str("maxThreads"), ts));
        let hs = u64_to_dec(self.max_hash as u64);
        pairs.push((String::from_str("maxHash"), hs));
        if self.variants.len() > 0 {
            pairs.push((String::from_str("variants"), join_commas(&self.variants)));
        }
        if self.official_stockfish {
            pairs.push((String::from_str("officialStockfish"), String::from_str("true")));
        }
        let ghost tsv = pairs@[3].1@;
        let ghost hsv = pairs@[4].1@;
        proof {
            assert(pairs_view(pairs@) =~= spec_reg_pairs(*self, tsv, hsv));
        }
        let q = urlencode_pairs(&pairs);
        let mut r = String::from_str("https://lichess.org/analysis/external?");
        r.append(q.as_str());
        r
    }
}

} // verus!
