//! What a request for a package needs before it can be answered: the host
//! under which the client reaches the server, and the name of the package
//! file.

use crate::app::stem;
use crate::error::Error;
use crate::storage::is_package_name;
use vstd::prelude::*;
use vstd::string::*;

verus! {

/// A header of a request, as far as its value matters.
#[derive(Debug)]
pub enum Header {
    /// The request has no such header.
    Missing,
    /// The header is there, but its value is no text.
    Unreadable,
    /// The value of the header.
    Text(String),
}

/// The host that a request names: the forwarded host where a proxy has set
/// one, else the host that the request was sent to. A header that is there
/// decides, readable or not; a request that names no host is the client's
/// fault.
pub open spec fn chosen_host(forwarded: Header, host: Header) -> Result<Seq<char>, Error> {
    match forwarded {
        Header::Text(name) => Ok(name@),
        Header::Unreadable => Err(Error::HostHeader),
        Header::Missing => match host {
            Header::Text(name) => Ok(name@),
            _ => Err(Error::HostHeader),
        },
    }
}

/// Chooses the host of a request from its two headers.
pub fn request_host<'a>(forwarded: &'a Header, host: &'a Header) -> (chosen: Result<&'a str, Error>)
    ensures
        match chosen {
            Ok(name) => chosen_host(*forwarded, *host) == Ok::<Seq<char>, Error>(name@),
            Err(e) => chosen_host(*forwarded, *host) == Err::<Seq<char>, Error>(e)
                && e == Error::HostHeader,
        },
{
    match forwarded {
        Header::Text(name) => Ok(name.as_str()),
        Header::Unreadable => Err(Error::HostHeader),
        Header::Missing => match host {
            Header::Text(name) => Ok(name.as_str()),
            _ => Err(Error::HostHeader),
        },
    }
}

/// The name of the file that holds the package with the key `id`.
pub open spec fn package_file(id: Seq<char>) -> Seq<char> {
    id + ".ipa"@
}

/// The name of the file that holds the package with the key `id`.
pub fn package_file_name(id: &str) -> (name: String)
    ensures
        name@ == package_file(id@),
        is_package_name(name@),
{
    let mut name = id.to_owned();
    name.append(".ipa");
    proof {
        assert(name@.subrange(name@.len() - ".ipa"@.len(), name@.len() as int) =~= ".ipa"@);
    }
    name
}

/// The file of a package is a package file, and its base name is the key
/// again, provided the key is not empty.
pub proof fn lemma_file_of_key(id: Seq<char>)
    requires
        id.len() > 0,
    ensures
        is_package_name(package_file(id)),
        stem(package_file(id)) == id,
{
    reveal_strlit(".ipa");
    let name = package_file(id);
    assert(name.subrange(name.len() - 4, name.len() as int) =~= ".ipa"@);
    let extension = seq!['i', 'p', 'a'];
    assert(name =~= id + seq!['.'] + extension);
    crate::app::lemma_stem_of_extended(id, extension);
}

} // verus!
