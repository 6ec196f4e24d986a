//! The items of the Soroban SDK that cost: which type or function a full path
//! stands for.

use vstd::prelude::*;

use crate::hir::Ty;
use crate::text::{ends_with, has_suffix, join, join_strs, same_text, str_texts};

verus! {

/// Whether the full path `full` ends with `segments`, written with `::` between
/// them.
pub open spec fn path_matches(full: Seq<char>, segments: Seq<Seq<char>>) -> bool {
    ends_with(full, join(segments, "::"@))
}

/// Whether the full path `full` ends with one of `paths`.
pub open spec fn any_path_matches(full: Seq<char>, paths: Seq<Seq<Seq<char>>>) -> bool {
    exists|i: int| 0 <= i < paths.len() && path_matches(full, #[trigger] paths[i])
}

/// Whether `ty`, without the references around it, is an item whose full path
/// ends with one of `paths`.
pub open spec fn peeled_type_in(ty: Ty, paths: Seq<Seq<Seq<char>>>) -> bool {
    match ty.adt {
        Some(full) => any_path_matches(full@, paths),
        None => false,
    }
}

/// Whether `ty`, without the references around it, is the item `segments`.
pub open spec fn peeled_type_is(ty: Ty, segments: Seq<Seq<char>>) -> bool {
    match ty.adt {
        Some(full) => path_matches(full@, segments),
        None => false,
    }
}

/// Soroban storage accessor types. Every method call on one of these reaches
/// the host's storage subsystem.
pub open spec fn storage_types() -> Seq<Seq<Seq<char>>> {
    seq![
        seq!["soroban_sdk"@, "storage"@, "Storage"@],
        seq!["soroban_sdk"@, "storage"@, "Instance"@],
        seq!["soroban_sdk"@, "storage"@, "Persistent"@],
        seq!["soroban_sdk"@, "storage"@, "Temporary"@],
    ]
}

/// Soroban host accessor types reachable from `Env`. A method call on any of
/// them crosses the guest/host boundary and is metered, so repeating it inside
/// a loop with unchanged inputs is wasted CPU budget.
///
/// The storage types are deliberately absent: storage operations in a loop are
/// reported by a lint of their own.
pub open spec fn host_types() -> Seq<Seq<Seq<char>>> {
    seq![
        seq!["soroban_sdk"@, "ledger"@, "Ledger"@],
        seq!["soroban_sdk"@, "crypto"@, "Crypto"@],
        seq!["soroban_sdk"@, "crypto"@, "CryptoHazmat"@],
        seq!["soroban_sdk"@, "crypto"@, "bls12_381"@, "Bls12_381"@],
        seq!["soroban_sdk"@, "crypto"@, "bn254"@, "Bn254"@],
        seq!["soroban_sdk"@, "prng"@, "Prng"@],
        seq!["soroban_sdk"@, "events"@, "Events"@],
        seq!["soroban_sdk"@, "deploy"@, "Deployer"@],
        seq!["soroban_sdk"@, "deploy"@, "DeployerWithAddress"@],
        seq!["soroban_sdk"@, "deploy"@, "DeployerWithAsset"@],
    ]
}

/// Soroban SDK container types. Growing one of these inside a loop reallocates
/// host-side state on every iteration.
pub open spec fn container_types() -> Seq<Seq<Seq<char>>> {
    seq![
        seq!["soroban_sdk"@, "Bytes"@],
        seq!["soroban_sdk"@, "Vec"@],
        seq!["soroban_sdk"@, "Map"@],
    ]
}

/// The contract environment, `soroban_sdk::Env`.
pub open spec fn env_type() -> Seq<Seq<char>> {
    seq!["soroban_sdk"@, "Env"@]
}

/// The host object, `host::Host`.
pub open spec fn host_object_type() -> Seq<Seq<char>> {
    seq!["host"@, "Host"@]
}

/// The SDK's byte container, `soroban_sdk::Bytes`.
pub open spec fn bytes_type() -> Seq<Seq<char>> {
    seq!["soroban_sdk"@, "Bytes"@]
}

/// The SDK's map, `soroban_sdk::Map`.
pub open spec fn map_type() -> Seq<Seq<char>> {
    seq!["soroban_sdk"@, "Map"@]
}

/// The constructor of symbols, `soroban_sdk::Symbol::new`.
pub open spec fn symbol_constructor() -> Seq<Seq<char>> {
    seq!["soroban_sdk"@, "Symbol"@, "new"@]
}

/// Whether `method` of `Env` is a host call whose result is constant for the
/// whole invocation.
///
/// The accessor methods themselves (`Env::ledger`, `Env::crypto`, ...) are not:
/// they only build a wrapper value, the metered work happens in the method
/// called on the wrapper. Argument-taking methods such as `invoke_contract` or
/// `authorize_as_current_contract` are not either, because their cost is
/// inherent to what the loop is doing.
pub open spec fn env_host_method(method: Seq<char>) -> bool {
    method == "current_contract_address"@
}

/// Whether `method` of a container type grows the container's backing buffer.
pub open spec fn append_method(method: Seq<char>) -> bool {
    ||| method == "append"@
    ||| method == "push_back"@
    ||| method == "insert"@
    ||| method == "extend_from_array"@
}

/// The paths of a table, each as the texts of its segments.
pub open spec fn table(paths: Seq<Vec<&str>>) -> Seq<Seq<Seq<char>>> {
    paths.map_values(|path: Vec<&str>| str_texts(path@))
}

/// Whether the full path `full` ends with `segments`, written with `::` between
/// them.
pub fn match_soroban_def_path(full: &str, segments: &[&str]) -> (found: bool)
    ensures
        found == path_matches(full@, str_texts(segments@)),
{
    let suffix = join_strs(segments, "::");
    has_suffix(full, suffix.as_str())
}

/// Whether the full path `full` ends with one of `paths`.
pub fn matches_any_path(full: &str, paths: &Vec<Vec<&str>>) -> (found: bool)
    ensures
        found == any_path_matches(full@, table(paths@)),
{
    for i in 0..paths.len()
        invariant
            forall|j: int| 0 <= j < i ==> !path_matches(full@, #[trigger] table(paths@)[j]),
    {
        assert(table(paths@)[i as int] == str_texts(paths@[i as int]@));
        if match_soroban_def_path(full, paths[i].as_slice()) {
            return true;
        }
    }
    false
}

/// The table of `storage_types`.
pub fn soroban_storage_types() -> (paths: Vec<Vec<&'static str>>)
    ensures
        table(paths@) == storage_types(),
{
    let paths = vec![
        vec!["soroban_sdk", "storage", "Storage"],
        vec!["soroban_sdk", "storage", "Instance"],
        vec!["soroban_sdk", "storage", "Persistent"],
        vec!["soroban_sdk", "storage", "Temporary"],
    ];
    assert(table(paths@) =~~= storage_types());
    paths
}

/// The table of `host_types`.
pub fn soroban_host_types() -> (paths: Vec<Vec<&'static str>>)
    ensures
        table(paths@) == host_types(),
{
    let paths = vec![
        vec!["soroban_sdk", "ledger", "Ledger"],
        vec!["soroban_sdk", "crypto", "Crypto"],
        vec!["soroban_sdk", "crypto", "CryptoHazmat"],
        vec!["soroban_sdk", "crypto", "bls12_381", "Bls12_381"],
        vec!["soroban_sdk", "crypto", "bn254", "Bn254"],
        vec!["soroban_sdk", "prng", "Prng"],
        vec!["soroban_sdk", "events", "Events"],
        vec!["soroban_sdk", "deploy", "Deployer"],
        vec!["soroban_sdk", "deploy", "DeployerWithAddress"],
        vec!["soroban_sdk", "deploy", "DeployerWithAsset"],
    ];
    assert(table(paths@) =~~= host_types());
    paths
}

/// The table of `container_types`.
pub fn soroban_container_types() -> (paths: Vec<Vec<&'static str>>)
    ensures
        table(paths@) == container_types(),
{
    let paths = vec![
        vec!["soroban_sdk", "Bytes"],
        vec!["soroban_sdk", "Vec"],
        vec!["soroban_sdk", "Map"],
    ];
    assert(table(paths@) =~~= container_types());
    paths
}

/// Whether `method` is one of `env_host_method`.
pub fn is_env_host_method(method: &str) -> (found: bool)
    ensures
        found == env_host_method(method@),
{
    same_text(method, "current_contract_address")
}

/// Whether `method` is one of `append_method`.
pub fn is_append_method(method: &str) -> (found: bool)
    ensures
        found == append_method(method@),
{
    same_text(method, "append") || same_text(method, "push_back") || same_text(method, "insert")
        || same_text(method, "extend_from_array")
}

impl Ty {
    /// Whether the type, without the references around it, is one of `paths`.
    pub fn is_one_of(&self, paths: &Vec<Vec<&str>>) -> (found: bool)
        ensures
            found == peeled_type_in(*self, table(paths@)),
    {
        match &self.adt {
            Some(full) => matches_any_path(full.as_str(), paths),
            None => false,
        }
    }

    /// Whether the type, without the references around it, is `segments`.
    pub fn is_item(&self, segments: &[&str]) -> (found: bool)
        ensures
            found == peeled_type_is(*self, str_texts(segments@)),
    {
        match &self.adt {
            Some(full) => match_soroban_def_path(full.as_str(), segments),
            None => false,
        }
    }

    /// Whether the type, without the references around it, is `Env`.
    pub fn is_env(&self) -> (found: bool)
        ensures
            found == peeled_type_is(*self, env_type()),
    {
        let segments: [&str; 2] = ["soroban_sdk", "Env"];
        assert(str_texts(segments@) =~= env_type());
        self.is_item(&segments)
    }
}

/// Whether `ty` itself, not a reference to it, is the SDK's `Bytes`.
pub open spec fn bytes_itself(ty: Ty) -> bool {
    ty.references == 0 && peeled_type_is(ty, bytes_type())
}

/// Whether `ty` itself, not a reference to it, is the SDK's `Bytes`.
pub fn is_bytes_type(ty: &Ty) -> (found: bool)
    ensures
        found == bytes_itself(*ty),
{
    let segments: [&str; 2] = ["soroban_sdk", "Bytes"];
    assert(str_texts(segments@) =~= bytes_type());
    ty.references == 0 && ty.is_item(&segments)
}

/// Segments that are joined are written one behind the other, with `::` between
/// them.
proof fn spelled(segments: Seq<Seq<char>>)
    ensures
        segments.len() == 2 ==> join(segments, "::"@) == segments[0] + "::"@ + segments[1],
        segments.len() == 3 ==> join(segments, "::"@) == segments[0] + "::"@ + segments[1] + "::"@
            + segments[2],
        segments.len() == 4 ==> join(segments, "::"@) == segments[0] + "::"@ + segments[1] + "::"@
            + segments[2] + "::"@ + segments[3],
{
    reveal_with_fuel(join, 4);
    if 2 <= segments.len() <= 4 {
        let front = segments.drop_last();
        assert(front.len() == segments.len() - 1);
        if front.len() >= 2 {
            assert(front.drop_last().len() == front.len() - 1);
        }
    }
}

/// A full path stands for an item exactly where it is something followed by the
/// joined segments of the item.
pub proof fn paths_match_by_their_ends(full: Seq<char>, segments: Seq<Seq<char>>)
    ensures
        path_matches(full, segments) <==> exists|front: Seq<char>| full == #[trigger] front.add(
            join(segments, "::"@),
        ),
{
    crate::text::endings_are_what_is_put_behind(full, join(segments, "::"@));
}

/// A type is a storage type exactly where, without the references around it, its
/// path ends in one of these four.
pub proof fn storage_types_by_path(ty: Ty)
    ensures
        peeled_type_in(ty, storage_types()) <==> (ty.adt matches Some(full) && {
            ||| ("soroban_sdk"@ + "::"@ + "storage"@ + "::"@ + "Storage"@).is_suffix_of(full@)
            ||| ("soroban_sdk"@ + "::"@ + "storage"@ + "::"@ + "Instance"@).is_suffix_of(full@)
            ||| ("soroban_sdk"@ + "::"@ + "storage"@ + "::"@ + "Persistent"@).is_suffix_of(full@)
            ||| ("soroban_sdk"@ + "::"@ + "storage"@ + "::"@ + "Temporary"@).is_suffix_of(full@)
        }),
{
    spelled(storage_types()[0]);
    spelled(storage_types()[1]);
    spelled(storage_types()[2]);
    spelled(storage_types()[3]);
    if let Some(full) = ty.adt {
        assert(path_matches(full@, storage_types()[0]) <==> ("soroban_sdk"@ + "::"@ + "storage"@ + "::"@ + "Storage"@).is_suffix_of(full@));
        assert(path_matches(full@, storage_types()[1]) <==> ("soroban_sdk"@ + "::"@ + "storage"@ + "::"@ + "Instance"@).is_suffix_of(full@));
        assert(path_matches(full@, storage_types()[2]) <==> ("soroban_sdk"@ + "::"@ + "storage"@ + "::"@ + "Persistent"@).is_suffix_of(full@));
        assert(path_matches(full@, storage_types()[3]) <==> ("soroban_sdk"@ + "::"@ + "storage"@ + "::"@ + "Temporary"@).is_suffix_of(full@));
    }
}

/// A type gives access to the host exactly where, without the references around
/// it, its path ends in one of these ten.
pub proof fn host_types_by_path(ty: Ty)
    ensures
        peeled_type_in(ty, host_types()) <==> (ty.adt matches Some(full) && {
            ||| ("soroban_sdk"@ + "::"@ + "ledger"@ + "::"@ + "Ledger"@).is_suffix_of(full@)
            ||| ("soroban_sdk"@ + "::"@ + "crypto"@ + "::"@ + "Crypto"@).is_suffix_of(full@)
            ||| ("soroban_sdk"@ + "::"@ + "crypto"@ + "::"@ + "CryptoHazmat"@).is_suffix_of(full@)
            ||| ("soroban_sdk"@ + "::"@ + "crypto"@ + "::"@ + "bls12_381"@ + "::"@ + "Bls12_381"@).is_suffix_of(full@)
            ||| ("soroban_sdk"@ + "::"@ + "crypto"@ + "::"@ + "bn254"@ + "::"@ + "Bn254"@).is_suffix_of(full@)
            ||| ("soroban_sdk"@ + "::"@ + "prng"@ + "::"@ + "Prng"@).is_suffix_of(full@)
            ||| ("soroban_sdk"@ + "::"@ + "events"@ + "::"@ + "Events"@).is_suffix_of(full@)
            ||| ("soroban_sdk"@ + "::"@ + "deploy"@ + "::"@ + "Deployer"@).is_suffix_of(full@)
            ||| ("soroban_sdk"@ + "::"@ + "deploy"@ + "::"@ + "DeployerWithAddress"@).is_suffix_of(full@)
            ||| ("soroban_sdk"@ + "::"@ + "deploy"@ + "::"@ + "DeployerWithAsset"@).is_suffix_of(full@)
        }),
{
    spelled(host_types()[0]);
    spelled(host_types()[1]);
    spelled(host_types()[2]);
    spelled(host_types()[3]);
    spelled(host_types()[4]);
    spelled(host_types()[5]);
    spelled(host_types()[6]);
    spelled(host_types()[7]);
    spelled(host_types()[8]);
    spelled(host_types()[9]);
    if let Some(full) = ty.adt {
        assert(path_matches(full@, host_types()[0]) <==> ("soroban_sdk"@ + "::"@ + "ledger"@ + "::"@ + "Ledger"@).is_suffix_of(full@));
        assert(path_matches(full@, host_types()[1]) <==> ("soroban_sdk"@ + "::"@ + "crypto"@ + "::"@ + "Crypto"@).is_suffix_of(full@));
        assert(path_matches(full@, host_types()[2]) <==> ("soroban_sdk"@ + "::"@ + "crypto"@ + "::"@ + "CryptoHazmat"@).is_suffix_of(full@));
        assert(path_matches(full@, host_types()[3]) <==> ("soroban_sdk"@ + "::"@ + "crypto"@ + "::"@ + "bls12_381"@ + "::"@ + "Bls12_381"@).is_suffix_of(full@));
        assert(path_matches(full@, host_types()[4]) <==> ("soroban_sdk"@ + "::"@ + "crypto"@ + "::"@ + "bn254"@ + "::"@ + "Bn254"@).is_suffix_of(full@));
        assert(path_matches(full@, host_types()[5]) <==> ("soroban_sdk"@ + "::"@ + "prng"@ + "::"@ + "Prng"@).is_suffix_of(full@));
        assert(path_matches(full@, host_types()[6]) <==> ("soroban_sdk"@ + "::"@ + "events"@ + "::"@ + "Events"@).is_suffix_of(full@));
        assert(path_matches(full@, host_types()[7]) <==> ("soroban_sdk"@ + "::"@ + "deploy"@ + "::"@ + "Deployer"@).is_suffix_of(full@));
        assert(path_matches(full@, host_types()[8]) <==> ("soroban_sdk"@ + "::"@ + "deploy"@ + "::"@ + "DeployerWithAddress"@).is_suffix_of(full@));
        assert(path_matches(full@, host_types()[9]) <==> ("soroban_sdk"@ + "::"@ + "deploy"@ + "::"@ + "DeployerWithAsset"@).is_suffix_of(full@));
    }
}

/// A type is a container exactly where, without the references around it, its
/// path ends in one of these three.
pub proof fn container_types_by_path(ty: Ty)
    ensures
        peeled_type_in(ty, container_types()) <==> (ty.adt matches Some(full) && {
            ||| ("soroban_sdk"@ + "::"@ + "Bytes"@).is_suffix_of(full@)
            ||| ("soroban_sdk"@ + "::"@ + "Vec"@).is_suffix_of(full@)
            ||| ("soroban_sdk"@ + "::"@ + "Map"@).is_suffix_of(full@)
        }),
{
    spelled(container_types()[0]);
    spelled(container_types()[1]);
    spelled(container_types()[2]);
    if let Some(full) = ty.adt {
        assert(path_matches(full@, container_types()[0]) <==> ("soroban_sdk"@ + "::"@ + "Bytes"@).is_suffix_of(full@));
        assert(path_matches(full@, container_types()[1]) <==> ("soroban_sdk"@ + "::"@ + "Vec"@).is_suffix_of(full@));
        assert(path_matches(full@, container_types()[2]) <==> ("soroban_sdk"@ + "::"@ + "Map"@).is_suffix_of(full@));
    }
}

/// The single items, by the ends of their paths. For `Bytes`, a reference to it
/// does not count.
pub proof fn items_by_path(ty: Ty, full: Seq<char>)
    ensures
        peeled_type_is(ty, env_type()) <==> (ty.adt matches Some(path) && ("soroban_sdk"@ + "::"@ + "Env"@).is_suffix_of(path@)),
        peeled_type_is(ty, host_object_type()) <==> (ty.adt matches Some(path) && ("host"@ + "::"@ + "Host"@).is_suffix_of(path@)),
        peeled_type_is(ty, map_type()) <==> (ty.adt matches Some(path) && ("soroban_sdk"@ + "::"@ + "Map"@).is_suffix_of(path@)),
        bytes_itself(ty) <==> ty.references == 0 && (ty.adt matches Some(path) && ("soroban_sdk"@ + "::"@ + "Bytes"@).is_suffix_of(path@)),
        path_matches(full, symbol_constructor()) <==> ("soroban_sdk"@ + "::"@ + "Symbol"@ + "::"@ + "new"@).is_suffix_of(full),
{
    spelled(env_type());
    spelled(host_object_type());
    spelled(map_type());
    spelled(bytes_type());
    spelled(symbol_constructor());
}

/// A table is known by the texts of its segments, one for one, and a path is in it
/// where it ends in one of its rows.
pub proof fn tables_are_read_row_by_row(
    paths: Seq<Vec<&str>>,
    full: Seq<char>,
    i: int,
    j: int,
)
    ensures
        table(paths).len() == paths.len(),
        0 <= i < paths.len() ==> table(paths)[i].len() == paths[i]@.len(),
        0 <= i < paths.len() && 0 <= j < paths[i]@.len() ==> table(paths)[i][j] == paths[i]@[j]@,
        0 <= i < paths.len() && path_matches(full, table(paths)[i]) ==> any_path_matches(
            full,
            table(paths),
        ),
        (forall|k: int| 0 <= k < paths.len() ==> !path_matches(full, #[trigger] table(paths)[k]))
            ==> !any_path_matches(full, table(paths)),
{
}

} // verus!
