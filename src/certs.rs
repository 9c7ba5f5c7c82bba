//! Where a domain's certificate and key files are: `<domain>.crt` and
//! `<domain>.key`, or `_.<domain>.crt` and `_.<domain>.key` for a wildcard
//! certificate. The program lists the certificates directory; these functions
//! decide from that listing.

use vstd::prelude::*;
use crate::text::{trim, trimmed};

verus! {

/// The name of the file with extension `ext` for `domain`, in wildcard form
/// (`_.<domain>.<ext>`) or exact form (`<domain>.<ext>`).
pub open spec fn file_name(domain: Seq<char>, ext: Seq<char>, wildcard: bool) -> Seq<char> {
    if wildcard {
        "_."@ + domain + "."@ + ext
    } else {
        domain + "."@ + ext
    }
}

pub open spec fn key_ext() -> Seq<char> {
    "key"@
}

pub open spec fn cert_ext() -> Seq<char> {
    "crt"@
}

/// `files` lists a file named `name`.
pub open spec fn lists(files: Seq<String>, name: Seq<char>) -> bool {
    exists|i: int| 0 <= i < files.len() && #[trigger] files[i]@ == name
}

/// `files` lists a key file of the trimmed `domain`, in either form.
pub open spec fn certificate_listed(files: Seq<String>, domain: Seq<char>) -> bool {
    lists(files, file_name(trimmed(domain), key_ext(), true)) || lists(
        files,
        file_name(trimmed(domain), key_ext(), false),
    )
}

/// The names to try, in order, for the file with extension `ext` of the
/// trimmed `domain`: the wildcard form only, or the wildcard form and then
/// the exact form.
pub open spec fn candidate_names(domain: Seq<char>, ext: Seq<char>, wildcard_only: bool) -> Seq<
    Seq<char>,
> {
    let d = trimmed(domain);
    if wildcard_only {
        seq![file_name(d, ext, true)]
    } else {
        seq![file_name(d, ext, true), file_name(d, ext, false)]
    }
}

/// The names of `v`, as character sequences.
pub open spec fn names_view(v: Seq<String>) -> Seq<Seq<char>> {
    Seq::new(v.len(), |i: int| v[i]@)
}

/// The file name for a domain that is already trimmed.
fn make_file_name(domain: &str, ext: &str, wildcard: bool) -> (r: String)
    ensures
        r@ == file_name(domain@, ext@, wildcard),
{
    let mut r = if wildcard {
        String::from_str("_.")
    } else {
        String::new()
    };
    r.append(domain);
    r.append(".");
    r.append(ext);
    proof {
        if !wildcard {
            assert(Seq::<char>::empty() + domain@ =~= domain@);
        }
    }
    r
}

/// Whether `files` holds a file named `name`.
fn lists_name(files: &Vec<String>, name: &String) -> (r: bool)
    ensures
        r == lists(files@, name@),
{
    let mut i: usize = 0;
    while i < files.len()
        invariant
            i <= files@.len(),
            forall|j: int| 0 <= j < i ==> files@[j]@ != name@,
        decreases files@.len() - i,
    {
        if files[i] == *name {
            return true;
        }
        i = i + 1;
    }
    false
}

/// The names to try for the file with extension `ext` of `domain`.
pub fn candidate_files(domain: &str, ext: &str, wildcard_only: bool) -> (r: Vec<String>)
    ensures
        names_view(r@) == candidate_names(domain@, ext@, wildcard_only),
{
    let d = trim(domain);
    let mut r: Vec<String> = Vec::new();
    r.push(make_file_name(d.as_str(), ext, true));
    if !wildcard_only {
        r.push(make_file_name(d.as_str(), ext, false));
    }
    assert(names_view(r@) =~= candidate_names(domain@, ext@, wildcard_only));
    r
}

/// Whether a certificate exists for the trimmed `domain`: a key file in the
/// wildcard or the exact form is among `files`.
pub fn certificate_exists(domain: &str, files: &Vec<String>) -> (r: bool)
    ensures
        r == certificate_listed(files@, domain@),
{
    let d = trim(domain);
    let wildcard = make_file_name(d.as_str(), "key", true);
    if lists_name(files, &wildcard) {
        return true;
    }
    let exact = make_file_name(d.as_str(), "key", false);
    lists_name(files, &exact)
}

/// The certificate file of the trimmed `domain` among `files`: the wildcard
/// form where it is listed, else the exact form, else none.
pub fn find_cert_file(domain: &str, files: &Vec<String>) -> (r: Option<String>)
    ensures
        ({
            let wild = file_name(trimmed(domain@), cert_ext(), true);
            let exact = file_name(trimmed(domain@), cert_ext(), false);
            if lists(files@, wild) {
                r matches Some(f) && f@ == wild
            } else if lists(files@, exact) {
                r matches Some(f) && f@ == exact
            } else {
                r is None
            }
        }),
{
    let d = trim(domain);
    let wildcard = make_file_name(d.as_str(), "crt", true);
    if lists_name(files, &wildcard) {
        return Some(wildcard);
    }
    let exact = make_file_name(d.as_str(), "crt", false);
    if lists_name(files, &exact) {
        return Some(exact);
    }
    None
}

} // verus!
