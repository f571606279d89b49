//! Finding the effect systems that a registry catalogues.
//!
//! A replacement pack swaps every particle system and every Niagara system
//! of a title for an empty one. The registry says which assets these are,
//! under which names, and the package path of each says where its files go.

use crate::record::AssetDataView;
use crate::registry::{AssetRegistry, AssetRegistryView};
use vstd::prelude::*;
use vstd::string::{StrSliceExecFns, StringExecFns};
use vstd::utf8::encode_utf8;

verus! {

/// The two kinds of effect systems.
#[derive(Debug, Clone, Copy, PartialEq, Eq, Structural)]
pub enum EffectKind {
    /// An asset of the class `ParticleSystem`.
    Particle,
    /// An asset of the class `NiagaraSystem`.
    Niagara,
}

/// An effect system of a registry: its kind, and where the name table has
/// its package and its own name.
#[derive(Debug, Clone, Copy, PartialEq, Eq, Structural)]
pub struct Effect {
    pub kind: EffectKind,
    pub package_name: usize,
    pub asset_name: usize,
}

/// The kind of effect system that a class name stands for, if any.
pub open spec fn class_kind(class: Seq<char>) -> Option<EffectKind> {
    if class == "ParticleSystem"@ {
        Some(EffectKind::Particle)
    } else if class == "NiagaraSystem"@ {
        Some(EffectKind::Niagara)
    } else {
        None
    }
}

/// Strings with the same bytes are the same.
pub proof fn lemma_same_bytes(a: Seq<char>, b: Seq<char>)
    requires
        encode_utf8(a) == encode_utf8(b),
    ensures
        a == b,
{
    vstd::utf8::encode_utf8_decode_utf8(a);
    vstd::utf8::encode_utf8_decode_utf8(b);
}

/// Whether two strings are the same.
pub fn same_text(a: &str, b: &str) -> (same: bool)
    ensures
        same == (a@ == b@),
{
    let x = a.as_bytes();
    let y = b.as_bytes();
    if x.len() != y.len() {
        return false;
    }
    let mut i: usize = 0;
    while i < x.len()
        invariant
            i <= x@.len(),
            x@ == encode_utf8(a@),
            y@ == encode_utf8(b@),
            x@.len() == y@.len(),
            forall|j: int| 0 <= j < i ==> x@[j] == y@[j],
        decreases x@.len() - i,
    {
        if x[i] != y[i] {
            return false;
        }
        i = i + 1;
    }
    proof {
        assert(x@ =~= y@);
        lemma_same_bytes(a@, b@);
    }
    true
}

/// The kind of effect system that a class name stands for, if any.
pub fn effect_kind(class: &str) -> (kind: Option<EffectKind>)
    ensures
        kind == class_kind(class@),
{
    if same_text(class, "ParticleSystem") {
        Some(EffectKind::Particle)
    } else if same_text(class, "NiagaraSystem") {
        Some(EffectKind::Niagara)
    } else {
        None
    }
}

/// The three names that are looked up for an asset are in the name table.
pub open spec fn names_in_range(names: Seq<Seq<char>>, data: AssetDataView) -> bool {
    &&& data.package_name.0 < names.len()
    &&& data.asset_name.0 < names.len()
    &&& data.asset_class.0 < names.len()
}

/// The effect system that an asset is, if it is one.
pub open spec fn effect_of(names: Seq<Seq<char>>, data: AssetDataView) -> Option<Effect> {
    match class_kind(names[data.asset_class.0 as int]) {
        Some(kind) => Some(
            Effect { kind, package_name: data.package_name.0, asset_name: data.asset_name.0 },
        ),
        None => None,
    }
}

/// The effect systems among the first `n` assets, in the order of the assets.
pub open spec fn effects_among(names: Seq<Seq<char>>, data: Seq<AssetDataView>, n: int) -> Seq<
    Effect,
>
    decreases n,
{
    if n <= 0 {
        Seq::empty()
    } else {
        let before = effects_among(names, data, n - 1);
        match effect_of(names, data[n - 1]) {
            Some(e) => before.push(e),
            None => before,
        }
    }
}

/// Every asset of the registry has its three names in the name table.
pub open spec fn all_names_in_range(v: AssetRegistryView) -> bool {
    forall|i: int|
        0 <= i < v.asset_data.len() ==> names_in_range(v.names, #[trigger] v.asset_data[i])
}

/// The effect systems that a registry catalogues, in the order of its asset
/// data. There is no answer where an asset refers to a name that the name
/// table does not have.
pub fn find_effects(registry: &AssetRegistry) -> (res: Option<Vec<Effect>>)
    ensures
        res is Some <==> all_names_in_range(registry@),
        res matches Some(found) ==> found@ == effects_among(
            registry@.names,
            registry@.asset_data,
            registry@.asset_data.len() as int,
        ),
{
    let count = registry.names.len();
    let mut found: Vec<Effect> = Vec::new();
    let mut i: usize = 0;
    while i < registry.asset_data.len()
        invariant
            i <= registry.asset_data@.len(),
            count == registry.names@.len(),
            forall|j: int|
                0 <= j < i ==> names_in_range(registry@.names, #[trigger] registry@.asset_data[j]),
            found@ == effects_among(registry@.names, registry@.asset_data, i as int),
        decreases registry.asset_data@.len() - i,
    {
        let data = &registry.asset_data[i];
        assert(registry@.asset_data[i as int] == data@);
        if data.package_name.0 >= count || data.asset_name.0 >= count || data.asset_class.0
            >= count {
            return None;
        }
        let class = &registry.names[data.asset_class.0];
        assert(registry@.names[data.asset_class.0 as int] == class@);
        match effect_kind(class.as_str()) {
            Some(kind) => {
                found.push(
                    Effect {
                        kind,
                        package_name: data.package_name.0,
                        asset_name: data.asset_name.0,
                    },
                );
            },
            None => {},
        }
        i = i + 1;
    }
    Some(found)
}

/// What follows `/Game/` in a package path, where the path starts with it.
pub open spec fn game_relative(package: Seq<char>) -> Option<Seq<char>> {
    if package.len() >= 6 && package.take(6) == "/Game/"@ {
        Some(package.skip(6))
    } else {
        None
    }
}

/// Where the content of a package lies in an archive: `FSD/Content/` and
/// then what follows `/Game/` in the package path.
pub open spec fn content_path_of(package: Seq<char>) -> Option<Seq<char>> {
    match game_relative(package) {
        Some(rest) => Some("FSD/Content/"@ + rest),
        None => None,
    }
}

/// Where the content of a package lies in an archive. A package path that
/// does not start with `/Game/` has no such place.
pub fn content_path(package: &str) -> (path: Option<String>)
    ensures
        match content_path_of(package@) {
            Some(p) => path is Some && path->Some_0@ == p,
            None => path is None,
        },
{
    broadcast use vstd::string::group_string_axioms;

    let prefix = "/Game/";
    proof {
        reveal_strlit("/Game/");
    }
    let len = package.unicode_len();
    if len < 6 {
        return None;
    }
    let mut out = String::from_str("FSD/Content/");
    let mut i: usize = 0;
    for c in it: package.chars()
        invariant
            it.seq() == package@,
            prefix@ == "/Game/"@,
            prefix@.len() == 6,
            len == package@.len(),
            len >= 6,
            i == it.index(),
            forall|j: int| 0 <= j < i && j < 6 ==> package@[j] == prefix@[j],
            i <= 6 ==> out@ == "FSD/Content/"@,
            i > 6 ==> out@ == "FSD/Content/"@ + package@.subrange(6, i as int),
    {
        if i < 6 {
            if c != prefix.get_char(i) {
                assert(package@.take(6)[i as int] != "/Game/"@[i as int]);
                return None;
            }
        } else {
            let ghost before = out@;
            out.push(c);
            proof {
                if i == 6 {
                    assert(package@.subrange(6, 7) =~= Seq::<char>::empty().push(c));
                    assert(before.push(c) =~= "FSD/Content/"@ + package@.subrange(6, 7));
                } else {
                    assert(package@.subrange(6, i + 1) =~= package@.subrange(6, i as int).push(c));
                    assert(before.push(c) =~= "FSD/Content/"@ + package@.subrange(6, i + 1));
                }
            }
        }
        i = i + 1;
    }
    proof {
        assert(package@.take(6) =~= "/Game/"@);
        if i == 6 {
            assert(package@.skip(6) =~= Seq::<char>::empty());
            assert(out@ =~= "FSD/Content/"@ + package@.skip(6));
        } else {
            assert(package@.subrange(6, i as int) =~= package@.skip(6));
        }
    }
    Some(out)
}

/// The two files of a package in an archive: its content path with the
/// extensions `uasset` and `uexp`.
pub fn asset_files(package: &str) -> (files: Option<(String, String)>)
    ensures
        match content_path_of(package@) {
            Some(p) => files is Some && files->Some_0.0@ == p + ".uasset"@ && files->Some_0.1@
                == p + ".uexp"@,
            None => files is None,
        },
{
    match content_path(package) {
        None => None,
        Some(path) => {
            let uexp = path.clone().concat(".uexp");
            let uasset = path.concat(".uasset");
            Some((uasset, uexp))
        },
    }
}

} // verus!
