//! Domain names and the domain list of the configuration.

use crate::error::MulchError;
use crate::text::{chars_of, join, joined, str_eq, strs};
use crate::types::MulchConfig;
use vstd::prelude::*;

verus! {

/// An ASCII letter or digit.
pub open spec fn is_ascii_alphanumeric(c: char) -> bool {
    ('a' <= c && c <= 'z') || ('A' <= c && c <= 'Z') || ('0' <= c && c <= '9')
}

/// A domain name: an ASCII letter or digit, followed by any number of ASCII
/// letters, digits, underscores and hyphens.
pub open spec fn is_domain_name(name: Seq<char>) -> bool {
    &&& name.len() > 0
    &&& is_ascii_alphanumeric(name[0])
    &&& forall|i: int|
        0 < i < name.len() ==> is_ascii_alphanumeric(#[trigger] name[i]) || name[i] == '_'
            || name[i] == '-'
}

fn ascii_alphanumeric(c: char) -> (r: bool)
    ensures
        r == is_ascii_alphanumeric(c),
{
    ('a' <= c && c <= 'z') || ('A' <= c && c <= 'Z') || ('0' <= c && c <= '9')
}

/// Accepts a domain name, or says that it is invalid.
pub fn validate_domain_name(domain: &str) -> (r: Result<(), MulchError>)
    ensures
        r is Ok <==> is_domain_name(domain@),
        r matches Err(e) ==> e matches MulchError::InvalidDomainName(name) && name@ == domain@,
{
    let chars = chars_of(domain);
    if chars.len() == 0 || !ascii_alphanumeric(chars[0]) {
        return Err(MulchError::InvalidDomainName(domain.to_owned()));
    }
    let mut i: usize = 1;
    while i < chars.len()
        invariant
            1 <= i <= chars@.len(),
            chars@ == domain@,
            is_ascii_alphanumeric(chars@[0]),
            forall|j: int|
                0 < j < i ==> is_ascii_alphanumeric(#[trigger] chars@[j]) || chars@[j] == '_'
                    || chars@[j] == '-',
        decreases chars.len() - i,
    {
        let c = chars[i];
        if !(ascii_alphanumeric(c) || c == '_' || c == '-') {
            return Err(MulchError::InvalidDomainName(domain.to_owned()));
        }
        i += 1;
    }
    Ok(())
}

/// The domain is one of the listed ones.
pub open spec fn is_listed(domains: Seq<Seq<char>>, domain: Seq<char>) -> bool {
    exists|i: int| 0 <= i < domains.len() && #[trigger] domains[i] == domain
}

/// The listed domains as shown in a message: their names separated by
/// commas, or a note where there are none.
pub open spec fn available_text(domains: Seq<Seq<char>>) -> Seq<char> {
    if domains.len() == 0 {
        "(none)"@
    } else {
        joined(domains, ", "@)
    }
}

/// Accepts a domain that the configuration lists, or says which ones it
/// lists.
pub fn ensure_domain_exists(config: &MulchConfig, domain: &str) -> (r: Result<(), MulchError>)
    ensures
        r is Ok <==> is_listed(strs(config.domains@), domain@),
        r matches Err(e) ==> e matches MulchError::DomainNotFound { domain: name, available }
            && name@ == domain@ && available@ == available_text(strs(config.domains@)),
{
    let mut i: usize = 0;
    while i < config.domains.len()
        invariant
            i <= config.domains@.len(),
            forall|j: int| 0 <= j < i ==> #[trigger] strs(config.domains@)[j] != domain@,
        decreases config.domains.len() - i,
    {
        if str_eq(config.domains[i].as_str(), domain) {
            assert(strs(config.domains@)[i as int] == domain@);
            return Ok(());
        }
        i += 1;
    }
    let available = if config.domains.len() == 0 {
        "(none)".to_owned()
    } else {
        join(config.domains.as_slice(), ", ")
    };
    Err(MulchError::DomainNotFound { domain: domain.to_owned(), available })
}

} // verus!
