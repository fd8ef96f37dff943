//! Where a relay takes and hands out envelopes.
use vstd::prelude::*;
use vstd::string::*;

use crate::text::strip_end;
use crate::text::stripped_end;

verus! {

/// Where a relay takes envelopes.
pub open spec fn envelopes_url_of(relay_url: Seq<char>) -> Seq<char> {
    stripped_end(relay_url, '/') + "/envelopes"@
}

/// Where a relay has the inbox of a peer.
pub open spec fn inbox_url_of(relay_url: Seq<char>, peer_id: Seq<char>) -> Seq<char> {
    stripped_end(relay_url, '/') + "/inbox/"@ + peer_id
}

/// Where a relay takes envelopes.
pub fn envelopes_url(relay_url: &str) -> (r: String)
    ensures
        r@ == envelopes_url_of(relay_url@),
{
    let mut url = strip_end(relay_url, '/').to_owned();
    url.append("/envelopes");
    url
}

/// Where a relay has the inbox of a peer.
pub fn inbox_url(relay_url: &str, peer_id: &str) -> (r: String)
    ensures
        r@ == inbox_url_of(relay_url@, peer_id@),
{
    let mut url = strip_end(relay_url, '/').to_owned();
    url.append("/inbox/");
    url.append(peer_id);
    url
}

} // verus!
