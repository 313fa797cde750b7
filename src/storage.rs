//! The on-disk layout under the vault root, and the decisions of the vault
//! store. The caller probes the file system and hands the outcome in; these
//! functions say what the store answers.
use vstd::prelude::*;
use vstd::utf8::encode_utf8;

use crate::error::VaultError;

verus! {

/// File of a vault's metadata record, inside its directory.
pub const METADATA_FILE: &'static str = "vault.json";

/// File of a vault's encrypted secret collection, inside its directory.
pub const SECRETS_FILE: &'static str = "secrets.enc";

/// Directory under the home directory that holds the vaults.
pub const VAULT_ROOT_NAME: &'static str = ".vaults";

/// One entry of the vault root as the file system lists it: its name when
/// that is valid Unicode, and whether it is a directory.
pub struct DirEntryInfo {
    pub name: Option<String>,
    pub is_dir: bool,
}

/// `dir/name`.
pub open spec fn joined(dir: Seq<char>, name: Seq<char>) -> Seq<char> {
    dir + seq!['/'] + name
}

/// The path of `name` inside the directory `dir`.
pub fn join_path(dir: &str, name: &str) -> (r: String)
    ensures
        r@ == joined(dir@, name@),
{
    let mut path = String::from_str(dir);
    path.append("/");
    path.append(name);
    proof {
        reveal_strlit("/");
    }
    path
}

/// The directory of the existing vault `vault_name`, or `VaultNotFound`
/// when `exists`, the file system's answer for that directory, is false.
pub fn get_vault_path(vault_dir: &str, vault_name: &str, exists: bool) -> (r: Result<String, VaultError>)
    ensures
        r is Ok <==> exists,
        r matches Ok(p) ==> p@ == joined(vault_dir@, vault_name@),
        r matches Err(e) ==> e == VaultError::VaultNotFound,
{
    if !exists {
        return Err(VaultError::VaultNotFound);
    }
    Ok(join_path(vault_dir, vault_name))
}

/// The directory to create for the new vault `vault_name`, or
/// `VaultAlreadyExists` when `exists`, the file system's answer for that
/// directory, is true.
pub fn create_vault_dir(vault_dir: &str, vault_name: &str, exists: bool) -> (r: Result<String, VaultError>)
    ensures
        r is Ok <==> !exists,
        r matches Ok(p) ==> p@ == joined(vault_dir@, vault_name@),
        r matches Err(e) ==> e == VaultError::VaultAlreadyExists,
{
    if exists {
        return Err(VaultError::VaultAlreadyExists);
    }
    Ok(join_path(vault_dir, vault_name))
}

/// The order of `String`: lexicographic over the UTF-8 bytes.
pub open spec fn bytes_le(a: Seq<u8>, b: Seq<u8>) -> bool
    decreases a.len(),
{
    if a.len() == 0 {
        true
    } else if b.len() == 0 {
        false
    } else if a[0] != b[0] {
        a[0] < b[0]
    } else {
        bytes_le(a.drop_first(), b.drop_first())
    }
}

/// Names in ascending order.
pub open spec fn names_sorted(s: Seq<String>) -> bool {
    forall|i: int, j: int| 0 <= i < j < s.len() ==> bytes_le(encode_utf8((#[trigger] s[i])@), encode_utf8((#[trigger] s[j])@))
}

/// Relies on `slice::sort`: a permutation in ascending `Ord` order, which
/// for `String` is lexicographic over the bytes.
#[verifier::external_body]
fn sort_names(names: &mut Vec<String>)
    ensures
        final(names)@.len() == old(names)@.len(),
        final(names)@.to_multiset() == old(names)@.to_multiset(),
        names_sorted(final(names)@),
{
    names.sort();
}

/// The names of the directories among `entries`, skipping names that are
/// not valid Unicode, in listing order.
pub open spec fn dir_names(entries: Seq<DirEntryInfo>) -> Seq<String>
    decreases entries.len(),
{
    if entries.len() == 0 {
        Seq::empty()
    } else {
        let rest = dir_names(entries.drop_last());
        let e = entries.last();
        if e.is_dir && e.name is Some {
            rest.push(e.name->0)
        } else {
            rest
        }
    }
}

/// The vault names: the directories among the entries of the vault root,
/// sorted.
pub fn list_vaults(entries: &Vec<DirEntryInfo>) -> (r: Vec<String>)
    ensures
        r@.to_multiset() == dir_names(entries@).to_multiset(),
        names_sorted(r@),
{
    let mut names: Vec<String> = Vec::new();
    let mut i: usize = 0;
    while i < entries.len()
        invariant
            i <= entries@.len(),
            names@ == dir_names(entries@.take(i as int)),
        decreases entries@.len() - i,
    {
        assert(entries@.take(i as int + 1).drop_last() == entries@.take(i as int));
        let e = &entries[i];
        if e.is_dir {
            match &e.name {
                Some(n) => names.push(n.clone()),
                None => {},
            }
        }
        i = i + 1;
    }
    assert(entries@.take(entries@.len() as int) == entries@);
    sort_names(&mut names);
    names
}

} // verus!
