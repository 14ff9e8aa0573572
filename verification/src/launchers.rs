//! Launchers found on the machine and the tools installed under them,
//! as a front end lists them.
//!
//! Probing the disk for a launcher's folder belongs to the caller; what
//! stands here is the bookkeeping: which launchers carry data, in what
//! order they are listed, and how a probe's findings become a
//! launcher's data.

use vstd::prelude::*;

verus! {

use vstd::string::*;

/// One installed tool version under a launcher.
#[derive(Debug, Clone, PartialEq)]
pub struct Install {
    pub name: String,
}

/// What probing a launcher's folder found: the folder itself and the
/// tool versions under it.
#[derive(Debug, Clone, PartialEq)]
pub struct LauncherData {
    /// Location of the launcher's tool folder.
    pub path: String,
    /// The tool versions found under it.
    pub installs: Vec<Install>,
}

/// A launcher that may be present on the machine, with whatever data
/// probing its folder produced.
#[derive(Debug, Clone, PartialEq)]
pub enum Launcher {
    Lutris(Option<LauncherData>),
    LutrisFlatpak(Option<LauncherData>),
    Steam(Option<LauncherData>),
    SteamFlatpak(Option<LauncherData>),
}

/// Whether the launcher's folder was found and read.
pub open spec fn launcher_has_data(l: Launcher) -> bool {
    match l {
        Launcher::Steam(d) => d is Some,
        Launcher::SteamFlatpak(d) => d is Some,
        Launcher::Lutris(d) => d is Some,
        Launcher::LutrisFlatpak(d) => d is Some,
    }
}

impl Launcher {
    /// Whether the launcher's folder was found and read.
    pub fn has_data(&self) -> (r: bool)
        ensures
            r == launcher_has_data(*self),
    {
        match self {
            Launcher::Steam(data) => data.is_some(),
            Launcher::SteamFlatpak(data) => data.is_some(),
            Launcher::Lutris(data) => data.is_some(),
            Launcher::LutrisFlatpak(data) => data.is_some(),
        }
    }
}

/// A message a front end sends itself when the user acts.
#[derive(Debug, Clone)]
pub enum Message {
    /// Update every detected launcher to the latest tool version.
    QuickUpdate,
    /// The user picked this launcher from the list.
    LauncherSelected(Launcher),
}

/// The four known launchers, each with whatever data probing found.
pub struct LauncherCollection {
    pub steam: Launcher,
    pub steam_flatpak: Launcher,
    pub lutris: Launcher,
    pub lutris_flatpak: Launcher,
}

/// The collection's launchers in listing order.
pub open spec fn spec_collection_order(c: LauncherCollection) -> Seq<Launcher> {
    seq![c.steam, c.steam_flatpak, c.lutris, c.lutris_flatpak]
}

impl LauncherCollection {
    /// A collection with no launcher probed yet.
    pub fn new() -> (r: LauncherCollection)
        ensures
            r.steam == Launcher::Steam(None::<LauncherData>),
            r.steam_flatpak == Launcher::SteamFlatpak(None::<LauncherData>),
            r.lutris == Launcher::Lutris(None::<LauncherData>),
            r.lutris_flatpak == Launcher::LutrisFlatpak(None::<LauncherData>),
    {
        LauncherCollection {
            steam: Launcher::Steam(None),
            steam_flatpak: Launcher::SteamFlatpak(None),
            lutris: Launcher::Lutris(None),
            lutris_flatpak: Launcher::LutrisFlatpak(None),
        }
    }

    /// A collection holding what probing each launcher's folder found;
    /// the probing itself is the caller's.
    pub fn find_launchers(
        steam: Option<LauncherData>,
        steam_flatpak: Option<LauncherData>,
        lutris: Option<LauncherData>,
        lutris_flatpak: Option<LauncherData>,
    ) -> (r: LauncherCollection)
        ensures
            r.steam == Launcher::Steam(steam),
            r.steam_flatpak == Launcher::SteamFlatpak(steam_flatpak),
            r.lutris == Launcher::Lutris(lutris),
            r.lutris_flatpak == Launcher::LutrisFlatpak(lutris_flatpak),
    {
        LauncherCollection {
            steam: Launcher::Steam(steam),
            steam_flatpak: Launcher::SteamFlatpak(steam_flatpak),
            lutris: Launcher::Lutris(lutris),
            lutris_flatpak: Launcher::LutrisFlatpak(lutris_flatpak),
        }
    }

    /// The collection's launchers in listing order.
    pub fn launchers(self) -> (r: Vec<Launcher>)
        ensures
            r@ =~= spec_collection_order(self),
    {
        let mut r: Vec<Launcher> = Vec::new();
        r.push(self.steam);
        r.push(self.steam_flatpak);
        r.push(self.lutris);
        r.push(self.lutris_flatpak);
        r
    }
}

/// The launchers of `c` whose folders were found, in listing order.
pub open spec fn spec_found_launchers(c: LauncherCollection) -> Seq<Launcher> {
    spec_collection_order(c).filter(|l: Launcher| launcher_has_data(l))
}

/// Lists the launchers whose folders were found, in listing order.
pub fn find_launchers(collection: LauncherCollection) -> (r: Vec<Launcher>)
    ensures
        r@ == spec_found_launchers(collection),
{
    let ghost c = collection;
    let all = collection.launchers();
    let mut rest = all;
    let mut out: Vec<Launcher> = Vec::new();
    let ghost order = spec_collection_order(c);
    proof {
        reveal(Seq::filter);
        assert(rest@ =~= order.skip(0));
        assert(order.take(0) =~= Seq::<Launcher>::empty());
        assert(out@ =~= order.take(0).filter(|l: Launcher| launcher_has_data(l)));
    }
    while rest.len() > 0
        invariant
            rest@ == order.skip(order.len() - rest@.len()),
            rest@.len() <= order.len(),
            out@ == order.take(order.len() - rest@.len()).filter(
                |l: Launcher| launcher_has_data(l),
            ),
        decreases rest@.len(),
    {
        let ghost k = order.len() - rest@.len();
        let ghost prev = rest@;
        let l = rest.remove(0);
        let keep = l.has_data();
        proof {
            reveal(Seq::filter);
            assert(l == order[k]);
            assert(rest@ =~= prev.skip(1));
            assert(rest@ =~= order.skip(k + 1));
            assert(order.take(k + 1).drop_last() =~= order.take(k));
            assert(order.take(k + 1).last() == order[k]);
        }
        if keep {
            out.push(l);
        }
    }
    proof {
        assert(order.take(order.len() as int) =~= order);
    }
    out
}

/// Turns what a folder probe found into a launcher's data: a probe
/// that could not read the folder leaves no data; one that could
/// yields the folder and one install per entry name, in order.
pub fn modify_launcher_data(path: String, entries: Option<Vec<String>>, data: &mut Option<
    LauncherData,
>)
    ensures
        entries is None ==> (*final(data)) is None,
        entries matches Some(es) ==> {
            &&& (*final(data)) matches Some(d)
            &&& (*final(data))->0.path@ == path@
            &&& (*final(data))->0.installs@.map_values(|i: Install| i.name@) == es@.map_values(
                |s: String| s@,
            )
        },
{
    match entries {
        None => {
            *data = None;
        },
        Some(names) => {
            let ghost ns = names@.map_values(|s: String| s@);
            let mut installs: Vec<Install> = Vec::new();
            let mut rest = names;
            proof {
                assert(rest@.map_values(|s: String| s@) =~= ns.skip(0));
                assert(installs@.map_values(|i: Install| i.name@) =~= ns.take(0));
            }
            while rest.len() > 0
                invariant
                    rest@.map_values(|s: String| s@) == ns.skip(ns.len() - rest@.len()),
                    rest@.len() <= ns.len(),
                    installs@.map_values(|i: Install| i.name@) == ns.take(ns.len() - rest@.len()),
                decreases rest@.len(),
            {
                let ghost k = ns.len() - rest@.len();
                let ghost prev = rest@;
                proof {
                    assert(prev.map_values(|s: String| s@)[0] == ns.skip(k)[0]);
                    assert(ns.skip(k)[0] == ns[k]);
                }
                let name = rest.remove(0);
                let ghost previ = installs@.map_values(|i: Install| i.name@);
                installs.push(Install { name });
                proof {
                    assert(rest@ =~= prev.skip(1));
                    assert(prev.map_values(|s: String| s@) == ns.skip(k));
                    assert forall|j: int| 0 <= j < rest@.len() implies #[trigger] ns.skip(k + 1)[j]
                        == rest@.map_values(|s: String| s@)[j] by {
                        assert(rest@[j] == prev[j + 1]);
                        assert(prev.map_values(|s: String| s@)[j + 1] == prev[j + 1]@);
                        assert(ns.skip(k)[j + 1] == ns[k + 1 + j]);
                        assert(ns.skip(k + 1)[j] == ns[k + 1 + j]);
                    }
                    assert(rest@.map_values(|s: String| s@) =~= ns.skip(k + 1));
                    assert(installs@.map_values(|i: Install| i.name@) =~= previ.push(ns[k]));
                    assert(previ.push(ns[k]) =~= ns.take(k + 1));
                }
            }
            proof {
                assert(ns.take(ns.len() as int) =~= ns);
            }
            *data = Some(LauncherData { path, installs });
        },
    }
}

} // verus!
