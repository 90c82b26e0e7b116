//! Launcher providers: each turns what a launcher leaves on the machine into
//! `ScannedInstallation` records.
use vstd::prelude::*;
use crate::models::ScannedInstallation;
use crate::text::{ascii_lower, chars_to_string, concat_chars, str_chars};

pub mod battlenet;
pub mod ea;
pub mod epic;
pub mod gog;
pub mod microsoft;
pub mod steam;
pub mod ubisoft;

verus! {

/// A launcher that can list its installations.
pub trait LibraryProvider {
    fn id(&self) -> &'static str;

    fn display_name(&self) -> &'static str;

    fn is_available(&self) -> bool;

    fn scan(&self) -> Result<Vec<ScannedInstallation>, String>;
}

/// The outcome of scanning one launcher.
#[derive(Debug, Clone)]
pub struct ProviderScan {
    pub id: &'static str,
    pub name: &'static str,
    pub root: Option<String>,
    pub installations: Vec<ScannedInstallation>,
    pub can_launch: bool,
    pub message: String,
}

/// The launchers Ludex knows how to scan.
#[derive(Debug, Clone, Copy, PartialEq, Eq)]
pub enum ProviderKind {
    Steam,
    Epic,
    Gog,
    Xbox,
    Ea,
    Ubisoft,
    Battlenet,
}

/// The identifier of each launcher kind.
pub open spec fn provider_id(k: ProviderKind) -> Seq<char> {
    match k {
        ProviderKind::Steam => "steam"@,
        ProviderKind::Epic => "epic"@,
        ProviderKind::Gog => "gog"@,
        ProviderKind::Xbox => "xbox"@,
        ProviderKind::Ea => "ea"@,
        ProviderKind::Ubisoft => "ubisoft"@,
        ProviderKind::Battlenet => "battlenet"@,
    }
}

/// The launcher that `scan_provider` runs for `id`, or the error it gives
/// for an unknown identifier.
pub open spec fn spec_resolve_provider(id: Seq<char>) -> Result<ProviderKind, Seq<char>> {
    if id == provider_id(ProviderKind::Steam) {
        Ok(ProviderKind::Steam)
    } else if id == provider_id(ProviderKind::Epic) {
        Ok(ProviderKind::Epic)
    } else if id == provider_id(ProviderKind::Gog) {
        Ok(ProviderKind::Gog)
    } else if id == provider_id(ProviderKind::Xbox) {
        Ok(ProviderKind::Xbox)
    } else if id == provider_id(ProviderKind::Ea) {
        Ok(ProviderKind::Ea)
    } else if id == provider_id(ProviderKind::Ubisoft) {
        Ok(ProviderKind::Ubisoft)
    } else if id == provider_id(ProviderKind::Battlenet) {
        Ok(ProviderKind::Battlenet)
    } else {
        Err("Provider desconhecido: "@ + id)
    }
}

fn kind_id(k: ProviderKind) -> (r: &'static str)
    ensures
        r@ == provider_id(k),
{
    match k {
        ProviderKind::Steam => "steam",
        ProviderKind::Epic => "epic",
        ProviderKind::Gog => "gog",
        ProviderKind::Xbox => "xbox",
        ProviderKind::Ea => "ea",
        ProviderKind::Ubisoft => "ubisoft",
        ProviderKind::Battlenet => "battlenet",
    }
}

/// Chooses the launcher that a scan request names; an unknown identifier is an error
/// that names it.
pub fn scan_provider(id: &str) -> (r: Result<ProviderKind, String>)
    ensures
        match (r, spec_resolve_provider(id@)) {
            (Ok(k), Ok(k2)) => k == k2,
            (Err(e), Err(e2)) => e@ == e2,
            _ => false,
        },
{
    let v = str_chars(id);
    let kinds = [
        ProviderKind::Steam,
        ProviderKind::Epic,
        ProviderKind::Gog,
        ProviderKind::Xbox,
        ProviderKind::Ea,
        ProviderKind::Ubisoft,
        ProviderKind::Battlenet,
    ];
    let mut i: usize = 0;
    while i < 7
        invariant
            i <= 7,
            v@ == id@,
            kinds@ == seq![
                ProviderKind::Steam,
                ProviderKind::Epic,
                ProviderKind::Gog,
                ProviderKind::Xbox,
                ProviderKind::Ea,
                ProviderKind::Ubisoft,
                ProviderKind::Battlenet,
            ],
            forall|j: int| 0 <= j < i ==> id@ != provider_id(#[trigger] kinds@[j]),
        decreases 7 - i,
    {
        let k = kinds[i];
        let name = str_chars(kind_id(k));
        if crate::text::same_chars(v.as_slice(), name.as_slice()) {
            proof {
                assert(forall|j: int| 0 <= j < i ==> id@ != provider_id(#[trigger] kinds@[j]));
            }
            return Ok(k);
        }
        i += 1;
    }
    proof {
        assert(id@ != provider_id(kinds@[0]));
        assert(id@ != provider_id(kinds@[1]));
        assert(id@ != provider_id(kinds@[2]));
        assert(id@ != provider_id(kinds@[3]));
        assert(id@ != provider_id(kinds@[4]));
        assert(id@ != provider_id(kinds@[5]));
        assert(id@ != provider_id(kinds@[6]));
    }
    let prefix = str_chars("Provider desconhecido: ");
    let msg = concat_chars(prefix.as_slice(), v.as_slice());
    Err(chars_to_string(msg.as_slice()))
}

/// The identifier given to a game known only by its folder: the folder's
/// name in ASCII lower case, spaces turned into hyphens.
pub open spec fn folder_game_id(title: Seq<char>) -> Seq<char> {
    title.map_values(|c: char| if c == ' ' { '-' } else { ascii_lower(c) })
}

pub fn game_id_of_folder(title: &str) -> (r: String)
    ensures
        r@ == folder_game_id(title@),
{
    let v = str_chars(title);
    let mut out: Vec<char> = Vec::new();
    let mut i: usize = 0;
    while i < v.len()
        invariant
            i <= v.len(),
            out@ == folder_game_id(v@.take(i as int)),
        decreases v.len() - i,
    {
        let c = v[i];
        let d = if c == ' ' {
            '-'
        } else {
            crate::text::char_ascii_lower(c)
        };
        out.push(d);
        i += 1;
        assert(out@ =~= folder_game_id(v@.take(i as int)));
    }
    assert(v@.take(v@.len() as int) =~= v@);
    chars_to_string(out.as_slice())
}

} // verus!
