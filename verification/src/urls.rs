//! Web addresses: which ones the add form accepts, and the site name a new
//! web link takes from its address.
use vstd::prelude::*;
use vstd::utf8::encode_utf8;
use crate::text::{contains_seq, find_from, find_seq, has_prefix, lemma_find_from, sub_chars};

verus! {

/// The host of what follows a URL's scheme: everything up to the first '/'.
pub open spec fn host_part(rest: Seq<char>) -> Seq<char> {
    match find_from(rest, seq!['/'], 0) {
        Some(k) => rest.take(k),
        None => rest,
    }
}

/// A host without a leading "www.".
pub open spec fn without_www(d: Seq<char>) -> Seq<char> {
    if has_prefix(d, "www."@) {
        d.skip(4)
    } else {
        d
    }
}

/// The site a URL names: the host after the first "://", without "www.";
/// a text without "://" is its own name.
pub open spec fn site_name(url: Seq<char>) -> Seq<char> {
    match find_from(url, seq![':', '/', '/'], 0) {
        Some(ds) => without_www(host_part(url.skip(ds + 3))),
        None => url,
    }
}

/// A URL the add form accepts: it starts with "http://", "https://" or
/// "ftp://", something that does not start with '/' follows the "://", and
/// its host holds a '.' and is more than three bytes long in UTF-8.
pub open spec fn valid_url(url: Seq<char>) -> bool {
    &&& (has_prefix(url, "http://"@) || has_prefix(url, "https://"@) || has_prefix(url, "ftp://"@))
    &&& match find_from(url, seq![':', '/', '/'], 0) {
        Some(ds) => {
            let rest = url.skip(ds + 3);
            &&& rest.len() > 0
            &&& rest[0] != '/'
            &&& contains_seq(host_part(rest), seq!['.'])
            &&& encode_utf8(host_part(rest)).len() > 3
        },
        None => false,
    }
}

/// The host of `rest`: its characters up to the first '/'.
pub(crate) fn host_chars(rest: &Vec<char>) -> (r: Vec<char>)
    ensures
        r@ == host_part(rest@),
{
    let slash: Vec<char> = vec!['/'];
    proof { assert(slash@ =~= seq!['/']); }
    match find_seq(rest, &slash) {
        Some(k) => {
            proof { lemma_find_from(rest@, slash@, 0); }
            sub_chars(rest, 0, k)
        },
        None => {
            proof { assert(rest@.subrange(0, rest@.len() as int) =~= rest@); }
            sub_chars(rest, 0, rest.len())
        },
    }
}

} // verus!
