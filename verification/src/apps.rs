//! The applications that compatibility tools are installed for, and
//! where each keeps its tools on disk.

use vstd::prelude::*;

use crate::sources::{spec_default_tools, default_compat_tools, CompatTool, ToolType};
use crate::text::to_owned_str;
use crate::utils::{opt_str_view, spec_expand_with, spec_join_dir, expand_tilde, join_dir};

verus! {

use vstd::string::*;

/// An application that uses compatibility tools: Steam, Lutris, or a
/// custom install rooted at a user-provided path.
#[derive(Debug, Clone)]
pub enum App {
    Steam,
    Lutris,
    /// An install rooted at the given path.
    Custom(String),
}

/// The mathematical content of an [`App`].
pub enum AppView {
    Steam,
    Lutris,
    Custom(Seq<char>),
}

impl View for App {
    type V = AppView;

    open spec fn view(&self) -> AppView {
        match self {
            App::Steam => AppView::Steam,
            App::Lutris => AppView::Lutris,
            App::Custom(p) => AppView::Custom(p@),
        }
    }
}

impl PartialEq for App {
    fn eq(&self, other: &App) -> (r: bool) {
        match (self, other) {
            (App::Steam, App::Steam) => true,
            (App::Lutris, App::Lutris) => true,
            (App::Custom(a), App::Custom(b)) => *a == *b,
            _ => false,
        }
    }
}

impl vstd::std_specs::cmp::PartialEqSpecImpl for App {
    open spec fn obeys_eq_spec() -> bool {
        true
    }

    open spec fn eq_spec(&self, other: &App) -> bool {
        self@ == other@
    }
}

/// One concrete installation of an application: native or Flatpak for
/// the known applications, or a custom directory.
#[derive(Debug, Clone)]
pub enum AppInstallations {
    Steam,
    SteamFlatpak,
    Lutris,
    LutrisFlatpak,
    Custom(String),
}

/// The mathematical content of an [`AppInstallations`].
pub enum AppInstView {
    Steam,
    SteamFlatpak,
    Lutris,
    LutrisFlatpak,
    Custom(Seq<char>),
}

impl View for AppInstallations {
    type V = AppInstView;

    open spec fn view(&self) -> AppInstView {
        match self {
            AppInstallations::Steam => AppInstView::Steam,
            AppInstallations::SteamFlatpak => AppInstView::SteamFlatpak,
            AppInstallations::Lutris => AppInstView::Lutris,
            AppInstallations::LutrisFlatpak => AppInstView::LutrisFlatpak,
            AppInstallations::Custom(p) => AppInstView::Custom(p@),
        }
    }
}

impl PartialEq for AppInstallations {
    fn eq(&self, other: &AppInstallations) -> (r: bool) {
        match (self, other) {
            (AppInstallations::Steam, AppInstallations::Steam) => true,
            (AppInstallations::SteamFlatpak, AppInstallations::SteamFlatpak) => true,
            (AppInstallations::Lutris, AppInstallations::Lutris) => true,
            (AppInstallations::LutrisFlatpak, AppInstallations::LutrisFlatpak) => true,
            (AppInstallations::Custom(a), AppInstallations::Custom(b)) => *a == *b,
            _ => false,
        }
    }
}

impl vstd::std_specs::cmp::PartialEqSpecImpl for AppInstallations {
    open spec fn obeys_eq_spec() -> bool {
        true
    }

    open spec fn eq_spec(&self, other: &AppInstallations) -> bool {
        self@ == other@
    }
}

impl App {
    /// The catalog tool installed for this application when the user
    /// names none: the first catalog entry for Steam and custom paths,
    /// the second for Lutris.
    pub fn default_compatibility_tool(&self) -> (r: CompatTool)
        ensures
            r@ == (match self@ {
                AppView::Lutris => spec_default_tools()[1],
                _ => spec_default_tools()[0],
            }),
    {
        let mut tools = default_compat_tools();
        proof {
            assert(tools@.len() == spec_default_tools().len());
            assert(tools@[0]@ == spec_default_tools()[0]);
            assert(tools@[1]@ == spec_default_tools()[1]);
        }
        match self {
            App::Lutris => {
                let _ = tools.remove(0);
                tools.remove(0)
            },
            _ => tools.remove(0),
        }
    }

    /// The concrete installations this application may have.
    pub fn app_installations(&self) -> (r: Vec<AppInstallations>)
        ensures
            r@.map_values(|a: AppInstallations| a@) =~= (match self@ {
                AppView::Steam => seq![AppInstView::Steam, AppInstView::SteamFlatpak],
                AppView::Lutris => seq![AppInstView::Lutris, AppInstView::LutrisFlatpak],
                AppView::Custom(p) => seq![AppInstView::Custom(p)],
            }),
    {
        let mut r: Vec<AppInstallations> = Vec::new();
        match self {
            App::Steam => {
                r.push(AppInstallations::Steam);
                r.push(AppInstallations::SteamFlatpak);
            },
            App::Lutris => {
                r.push(AppInstallations::Lutris);
                r.push(AppInstallations::LutrisFlatpak);
            },
            App::Custom(path) => {
                r.push(AppInstallations::Custom(path.clone()));
            },
        }
        r
    }

    /// The subfolders of the application's base directory that hold
    /// tools, where the application distinguishes any.
    pub fn list_subfolders(&self) -> (r: Option<Vec<&str>>)
        ensures
            match r {
                Some(v) => self@ is Lutris && v@.map_values(|s: &str| s@) =~= seq![
                    "runners/wine"@,
                    "runtime"@,
                ],
                None => !(self@ is Lutris),
            },
    {
        match self {
            App::Steam => None,
            App::Lutris => {
                let mut v: Vec<&str> = Vec::new();
                v.push("runners/wine");
                v.push("runtime");
                Some(v)
            },
            App::Custom(_) => None,
        }
    }

    /// The subfolder of the application's base path that `compat_tool`
    /// installs into; empty where the application needs none.
    pub fn subfolder_for_tool(&self, compat_tool: &CompatTool) -> (r: &str)
        ensures
            r@ == spec_subfolder_for_tool(self@, compat_tool@.tool_type),
    {
        match self {
            App::Steam => "",
            App::Lutris => match compat_tool.tool_type {
                ToolType::WineBased => "runners/wine",
                ToolType::Runtime => "runtime",
            },
            App::Custom(_) => "",
        }
    }
}

/// Which subfolder of an application's base path a tool of type `t`
/// belongs in: Lutris separates Wine runners from runtimes, the others
/// use their base path directly.
pub open spec fn spec_subfolder_for_tool(a: AppView, t: ToolType) -> Seq<char> {
    match a {
        AppView::Lutris => match t {
            ToolType::WineBased => "runners/wine"@,
            ToolType::Runtime => "runtime"@,
        },
        _ => ""@,
    }
}

/// The root folder of an installation.
pub open spec fn spec_app_base_dir(a: AppInstView) -> Seq<char> {
    match a {
        AppInstView::Steam => "~/.steam/steam/"@,
        AppInstView::SteamFlatpak => "~/.var/app/com.valvesoftware.Steam/data/Steam/"@,
        AppInstView::Lutris => "~/.local/share/lutris/"@,
        AppInstView::LutrisFlatpak => "~/.var/app/net.lutris.Lutris/data/lutris/"@,
        AppInstView::Custom(p) => p,
    }
}

/// The directory an installation's tools are extracted into: Steam keeps
/// them under `compatibilitytools.d/`, the others under their base
/// directory.
pub open spec fn spec_default_install_dir(a: AppInstView) -> Seq<char> {
    match a {
        AppInstView::Steam | AppInstView::SteamFlatpak => spec_app_base_dir(a)
            + "compatibilitytools.d/"@,
        _ => spec_app_base_dir(a),
    }
}

impl AppInstallations {
    /// An installation at a user-provided folder.
    pub fn new_custom_app_install(install_path: String) -> (r: AppInstallations)
        ensures
            r@ == AppInstView::Custom(install_path@),
    {
        AppInstallations::Custom(install_path)
    }

    /// The root folder of the installation.
    pub fn app_base_dir(&self) -> (r: String)
        ensures
            r@ == spec_app_base_dir(self@),
    {
        match self {
            AppInstallations::Steam => to_owned_str("~/.steam/steam/"),
            AppInstallations::SteamFlatpak => to_owned_str(
                "~/.var/app/com.valvesoftware.Steam/data/Steam/",
            ),
            AppInstallations::Lutris => to_owned_str("~/.local/share/lutris/"),
            AppInstallations::LutrisFlatpak => to_owned_str(
                "~/.var/app/net.lutris.Lutris/data/lutris/",
            ),
            AppInstallations::Custom(path) => path.clone(),
        }
    }

    /// The directory tools are extracted into for this installation.
    pub fn default_install_dir(&self) -> (r: String)
        ensures
            r@ == spec_default_install_dir(self@),
    {
        match self {
            AppInstallations::Steam | AppInstallations::SteamFlatpak => {
                let mut r = self.app_base_dir();
                r.append("compatibilitytools.d/");
                r
            },
            _ => self.app_base_dir(),
        }
    }

    /// The directory `compat_tool` installs into for this installation,
    /// with the home directory expanded: the install dir, the
    /// application's subfolder for the tool's type, and `~` resolved
    /// against whatever home directory the environment has.
    pub fn installation_dir(&self, compat_tool: &CompatTool) -> (r: Option<String>)
        ensures
            exists|h: Option<Seq<char>>|
                opt_str_view(r) == spec_expand_with(
                    spec_join_dir(
                        spec_default_install_dir(self@),
                        spec_subfolder_for_tool(spec_as_app(self@), compat_tool@.tool_type),
                    ),
                    h,
                ),
    {
        let base = self.default_install_dir();
        let app = self.as_app();
        let sub = app.subfolder_for_tool(compat_tool);
        let path = join_dir(base, sub);
        expand_tilde(path.as_str())
    }

    /// The application this installation belongs to.
    pub fn as_app(&self) -> (r: App)
        ensures
            r@ == spec_as_app(self@),
    {
        match self {
            AppInstallations::Steam | AppInstallations::SteamFlatpak => App::Steam,
            AppInstallations::Lutris | AppInstallations::LutrisFlatpak => App::Lutris,
            AppInstallations::Custom(path) => App::Custom(path.clone()),
        }
    }
}

/// The application an installation belongs to.
pub open spec fn spec_as_app(a: AppInstView) -> AppView {
    match a {
        AppInstView::Steam | AppInstView::SteamFlatpak => AppView::Steam,
        AppInstView::Lutris | AppInstView::LutrisFlatpak => AppView::Lutris,
        AppInstView::Custom(p) => AppView::Custom(p),
    }
}

} // verus!
