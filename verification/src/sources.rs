//! The catalog of installable compatibility tools and the per-tool
//! rules that drive release resolution.
//!
//! A [`CompatTool`] names a repository on a release registry and carries
//! three optional naming rules: a regex filter that release assets must
//! match, a literal find/replace applied to version tags, and a file
//! name template with a `{version}` placeholder.  The install-directory
//! name of a release is the tag run through replacement and template.

use vstd::prelude::*;

use crate::apps::{App, AppView};
use crate::text::{
    contains_str, path_components, replace_all, replace_seq, split_components, to_owned_str,
};

verus! {

use vstd::string::*;

/// Where a tool's releases are published.  A single registry family is
/// supported today; the enum leaves room for more.
#[derive(Debug, Clone, Copy, PartialEq, Eq, Structural)]
pub enum Forge {
    GitHub,
}

/// How a tool is installed: as a Wine-based runner or as a runtime.
#[derive(Debug, Clone, Copy, PartialEq, Eq, Structural)]
pub enum ToolType {
    WineBased,
    Runtime,
}

/// One entry of the tool catalog.
#[derive(Debug, Clone)]
pub struct CompatTool {
    /// Display name of the tool.
    pub name: String,
    /// The registry its releases are published on.
    pub forge: Forge,
    /// Account owning the repository.
    pub repository_account: String,
    /// Name of the repository.
    pub repository_name: String,
    /// The applications this tool can be installed for.
    pub compatible_applications: Vec<App>,
    /// How the tool is installed.
    pub tool_type: ToolType,
    /// Regex that a release asset's file name must match, if any.
    pub release_asset_filter: Option<String>,
    /// Literal find/replace pair applied to version tags, if any.
    pub file_name_replacement: Option<(String, String)>,
    /// Template with a `{version}` placeholder for the install name, if
    /// any; applied after the replacement.
    pub file_name_template: Option<String>,
}

/// The mathematical content of a [`CompatTool`].
#[verifier::ext_equal]
pub struct CompatToolView {
    pub name: Seq<char>,
    pub forge: Forge,
    pub repository_account: Seq<char>,
    pub repository_name: Seq<char>,
    pub compatible_applications: Seq<AppView>,
    pub tool_type: ToolType,
    pub release_asset_filter: Option<Seq<char>>,
    pub file_name_replacement: Option<(Seq<char>, Seq<char>)>,
    pub file_name_template: Option<Seq<char>>,
}

impl View for CompatTool {
    type V = CompatToolView;

    open spec fn view(&self) -> CompatToolView {
        CompatToolView {
            name: self.name@,
            forge: self.forge,
            repository_account: self.repository_account@,
            repository_name: self.repository_name@,
            compatible_applications: self.compatible_applications@.map_values(|a: App| a@),
            tool_type: self.tool_type,
            release_asset_filter: match self.release_asset_filter {
                Some(f) => Some(f@),
                None => None,
            },
            file_name_replacement: match self.file_name_replacement {
                Some(p) => Some((p.0@, p.1@)),
                None => None,
            },
            file_name_template: match self.file_name_template {
                Some(t) => Some(t@),
                None => None,
            },
        }
    }
}

/// Whether the pattern `pattern` is a regex that compiles.  Decided only
/// by the `regex` crate.
pub uninterp spec fn regex_compiles(pattern: Seq<char>) -> bool;

/// Whether the compiled regex `pattern` matches somewhere in `text`.
/// Decided only by the `regex` crate.
pub uninterp spec fn regex_matches(pattern: Seq<char>, text: Seq<char>) -> bool;

/// Relies on `regex::Regex::new` and `regex::Regex::is_match`: whether
/// the pattern compiles, and whether it then matches somewhere in
/// `text`; both depend on the two strings alone.
#[verifier::external_body]
fn regex_is_match(pattern: &str, text: &str) -> (r: Option<bool>)
    ensures
        r is Some <==> regex_compiles(pattern@),
        r is Some ==> r->0 == regex_matches(pattern@, text@),
{
    match regex::Regex::new(pattern) {
        Ok(re) => Some(re.is_match(text)),
        Err(_) => None,
    }
}

/// Whether the tool's asset filter lets `path` through: an absent filter
/// lets everything through, one that does not compile nothing.
pub open spec fn spec_filter_asset(t: CompatToolView, path: Seq<char>) -> bool {
    match t.release_asset_filter {
        None => true,
        Some(p) => regex_compiles(p) && regex_matches(p, path),
    }
}

/// A normalized install name that stays inside the directory it is
/// joined onto: it is never empty — it names at least one real path
/// component — it is not absolute, and no component of it climbs
/// upward.  This is the invariant the install layout demands of every
/// name before it becomes part of a path that is created or removed.
pub open spec fn safe_install_name(name: Seq<char>) -> bool {
    &&& name.len() > 0
    &&& name[0] != '/'
    &&& path_components(name).len() > 0
    &&& forall|i: int|
        0 <= i < path_components(name).len() ==> #[trigger] path_components(name)[i] != seq![
            '.',
            '.',
        ]
}

/// Whether `name` satisfies the install-name invariant of
/// [`safe_install_name`].
pub fn is_safe_install_name(name: &str) -> (r: bool)
    ensures
        r == safe_install_name(name@),
{
    let n: usize = name.unicode_len();
    if n == 0 {
        return false;
    }
    if name.get_char(0) == '/' {
        return false;
    }
    let comps = split_components(name);
    if comps.len() == 0 {
        return false;
    }
    let mut i: usize = 0;
    while i < comps.len()
        invariant
            comps@.map_values(|c: String| c@) == path_components(name@),
            0 <= i <= comps@.len(),
            forall|j: int| 0 <= j < i ==> #[trigger] path_components(name@)[j] != seq!['.', '.'],
        decreases comps@.len() - i,
    {
        if is_dotdot(&comps[i]) {
            proof {
                assert(path_components(name@)[i as int] == comps@[i as int]@);
            }
            return false;
        }
        proof {
            assert(path_components(name@)[i as int] == comps@[i as int]@);
        }
        i = i + 1;
    }
    true
}

/// Whether a path component is the upward-traversal marker.
fn is_dotdot(c: &String) -> (r: bool)
    ensures
        r == (c@ == seq!['.', '.']),
{
    let n: usize = c.as_str().unicode_len();
    if n == 2 && c.as_str().get_char(0) == '.' && c.as_str().get_char(1) == '.' {
        proof {
            assert(c@ =~= seq!['.', '.']);
        }
        true
    } else {
        proof {
            if n == 2 {
                assert(c@ != seq!['.', '.']);
            } else {
                assert(c@.len() != seq!['.', '.'].len());
            }
        }
        false
    }
}

/// The install-directory name for version `version` under the tool's
/// naming rules: the tag with the find/replace rule applied, then
/// substituted for `{version}` in the template.
pub open spec fn spec_installation_name(t: CompatToolView, version: Seq<char>) -> Seq<char> {
    let replaced = match t.file_name_replacement {
        Some(fr) => replace_seq(version, fr.0, fr.1),
        None => version,
    };
    match t.file_name_template {
        Some(tpl) => replace_seq(tpl, "{version}"@, replaced),
        None => replaced,
    }
}

impl CompatTool {
    /// Builds a catalog entry from explicit parts; such a custom tool is
    /// not tied to any application.
    pub fn new_custom(
        name: String,
        forge: Forge,
        repository_account: String,
        repository_name: String,
        tool_type: ToolType,
        release_asset_filter: Option<String>,
        file_name_replacement: Option<(String, String)>,
        file_name_template: Option<String>,
    ) -> (r: CompatTool)
        ensures
            r@.name == name@,
            r@.forge == forge,
            r@.repository_account == repository_account@,
            r@.repository_name == repository_name@,
            r@.compatible_applications =~= Seq::<AppView>::empty(),
            r@.tool_type == tool_type,
            r@.release_asset_filter == (match release_asset_filter {
                Some(f) => Some(f@),
                None => None,
            }),
            r@.file_name_replacement == (match file_name_replacement {
                Some(p) => Some((p.0@, p.1@)),
                None => None,
            }),
            r@.file_name_template == (match file_name_template {
                Some(t) => Some(t@),
                None => None,
            }),
    {
        CompatTool {
            name,
            forge,
            repository_account,
            repository_name,
            compatible_applications: Vec::new(),
            tool_type,
            release_asset_filter,
            file_name_replacement,
            file_name_template,
        }
    }

    /// The install-directory name for `version`, per the tool's
    /// find/replace rule and file name template.
    ///
    /// This is the naming rule alone; it makes no promise that the
    /// result is fit to be a path component.  Anything that joins the
    /// name onto an install directory goes through
    /// [`CompatTool::checked_installation_name`], which guarantees the
    /// name stays inside the base directory.
    pub fn installation_name(&self, version: &str) -> (r: String)
        ensures
            r@ == spec_installation_name(self@, version@),
    {
        let replaced = match &self.file_name_replacement {
            Some(fr) => replace_all(version, fr.0.as_str(), fr.1.as_str()),
            None => to_owned_str(version),
        };
        match &self.file_name_template {
            Some(tpl) => replace_all(tpl.as_str(), "{version}", replaced.as_str()),
            None => replaced,
        }
    }

    /// The install-directory name for `version`, gated by the
    /// install-name invariant: the name under the tool's naming rules
    /// where that name never leaves the base directory it is joined
    /// onto, and nothing where the rules produce an empty, absolute or
    /// upward-traversing name.
    pub fn checked_installation_name(&self, version: &str) -> (r: Option<String>)
        ensures
            match r {
                Some(n) => n@ == spec_installation_name(self@, version@) && safe_install_name(
                    n@,
                ),
                None => !safe_install_name(spec_installation_name(self@, version@)),
            },
    {
        let name = self.installation_name(version);
        if is_safe_install_name(name.as_str()) {
            Some(name)
        } else {
            None
        }
    }

    /// Whether the asset whose file name is `path` passes the tool's
    /// regex filter.
    pub fn filter_asset(&self, path: &str) -> (r: bool)
        ensures
            r == spec_filter_asset(self@, path@),
    {
        match &self.release_asset_filter {
            None => true,
            Some(f) => match regex_is_match(f.as_str(), path) {
                Some(b) => b,
                None => false,
            },
        }
    }

    /// The catalog entries compatible with `app`, in catalog order.
    pub fn sources_for_app(app: &App) -> (r: Vec<CompatTool>)
        ensures
            r@.map_values(|t: CompatTool| t@) == filter_compat(spec_default_tools(), app@),
    {
        let tools = default_compat_tools();
        let ghost sd = spec_default_tools();
        let mut out: Vec<CompatTool> = Vec::new();
        let mut i: usize = 0;
        proof {
            assert(sd.take(0) =~= Seq::<CompatToolView>::empty());
            assert(out@.map_values(|t: CompatTool| t@) =~= filter_compat(sd.take(0), app@));
        }
        while i < tools.len()
            invariant
                tools@.map_values(|t: CompatTool| t@) == sd,
                0 <= i <= tools@.len(),
                sd.len() == tools@.len(),
                out@.map_values(|t: CompatTool| t@) == filter_compat(sd.take(i as int), app@),
            decreases tools@.len() - i,
        {
            proof {
                lemma_filter_compat_step(sd, app@, i as int);
                assert(tools@[i as int]@ == sd[i as int]);
            }
            if contains_app(&tools[i].compatible_applications, app) {
                let ghost prev = out@.map_values(|t: CompatTool| t@);
                let tool = tool_clone(&tools[i]);
                out.push(tool);
                proof {
                    assert(out@.map_values(|t: CompatTool| t@) =~= prev.push(sd[i as int]));
                }
            }
            i = i + 1;
        }
        proof {
            assert(sd.take(sd.len() as int) =~= sd);
        }
        out
    }
}

/// The entries of `s` compatible with the application `a`, in order.
pub open spec fn filter_compat(s: Seq<CompatToolView>, a: AppView) -> Seq<CompatToolView> {
    s.filter(|t: CompatToolView| t.compatible_applications.contains(a))
}

proof fn lemma_filter_compat_step(s: Seq<CompatToolView>, a: AppView, i: int)
    requires
        0 <= i < s.len(),
    ensures
        filter_compat(s.take(i + 1), a) == (if s[i].compatible_applications.contains(a) {
            filter_compat(s.take(i), a).push(s[i])
        } else {
            filter_compat(s.take(i), a)
        }),
{
    reveal(Seq::filter);
    assert(s.take(i + 1).drop_last() =~= s.take(i));
    assert(s.take(i + 1).last() == s[i]);
    assert(s.take(i + 1).len() == i + 1 > 0);
}

/// Whether `app` occurs in `list`.
fn contains_app(list: &Vec<App>, app: &App) -> (r: bool)
    ensures
        r == list@.map_values(|a: App| a@).contains(app@),
{
    let ghost la = list@.map_values(|a: App| a@);
    let mut i: usize = 0;
    while i < list.len()
        invariant
            la == list@.map_values(|a: App| a@),
            0 <= i <= list@.len(),
            forall|j: int| 0 <= j < i ==> la[j] != app@,
        decreases list@.len() - i,
    {
        if list[i].eq(app) {
            proof {
                assert(la[i as int] == app@);
            }
            return true;
        }
        i = i + 1;
    }
    false
}

/// A field-by-field copy of a catalog entry.
fn tool_clone(t: &CompatTool) -> (r: CompatTool)
    ensures
        r@ == t@,
{
    let mut apps: Vec<App> = Vec::new();
    let mut i: usize = 0;
    while i < t.compatible_applications.len()
        invariant
            0 <= i <= t.compatible_applications@.len(),
            apps@.map_values(|a: App| a@) =~= t.compatible_applications@.map_values(
                |a: App| a@,
            ).take(i as int),
        decreases t.compatible_applications@.len() - i,
    {
        let ghost prev = apps@.map_values(|a: App| a@);
        apps.push(app_clone(&t.compatible_applications[i]));
        proof {
            assert(apps@.map_values(|a: App| a@) =~= prev.push(
                t.compatible_applications@.map_values(|a: App| a@)[i as int],
            ));
        }
        i = i + 1;
    }
    proof {
        let m = t.compatible_applications@.map_values(|a: App| a@);
        assert(m.take(m.len() as int) =~= m);
    }
    let r = CompatTool {
        name: t.name.clone(),
        forge: t.forge,
        repository_account: t.repository_account.clone(),
        repository_name: t.repository_name.clone(),
        compatible_applications: apps,
        tool_type: t.tool_type,
        release_asset_filter: match &t.release_asset_filter {
            Some(f) => Some(f.clone()),
            None => None,
        },
        file_name_replacement: match &t.file_name_replacement {
            Some(p) => Some((p.0.clone(), p.1.clone())),
            None => None,
        },
        file_name_template: match &t.file_name_template {
            Some(tp) => Some(tp.clone()),
            None => None,
        },
    };
    proof {
        assert(r@ =~= t@);
    }
    r
}

/// A field-by-field copy of an application.
fn app_clone(a: &App) -> (r: App)
    ensures
        r@ == a@,
{
    match a {
        App::Steam => App::Steam,
        App::Lutris => App::Lutris,
        App::Custom(p) => App::Custom(p.clone()),
    }
}

/// The catalog entry for GE-Proton, the Steam tool installed by default.
pub open spec fn spec_geproton_tool() -> CompatToolView {
    CompatToolView {
        name: "GEProton"@,
        forge: Forge::GitHub,
        repository_account: "GloriousEggroll"@,
        repository_name: "proton-ge-custom"@,
        compatible_applications: seq![AppView::Steam],
        tool_type: ToolType::WineBased,
        release_asset_filter: None,
        file_name_replacement: None,
        file_name_template: None,
    }
}

/// The catalog entry for Wine-GE, the Lutris tool installed by default;
/// its tags read `GE-ProtonX-Y` while its install directories read
/// `GE-WineX-Y`, hence the replacement rule.
pub open spec fn spec_winege_tool() -> CompatToolView {
    CompatToolView {
        name: "WineGE"@,
        forge: Forge::GitHub,
        repository_account: "GloriousEggroll"@,
        repository_name: "wine-ge-custom"@,
        compatible_applications: seq![AppView::Lutris],
        tool_type: ToolType::WineBased,
        release_asset_filter: None,
        file_name_replacement: Some(("Proton"@, "Wine"@)),
        file_name_template: None,
    }
}

/// The catalog entry for Luxtorpeda, a Steam runtime.
pub open spec fn spec_luxtorpeda_tool() -> CompatToolView {
    CompatToolView {
        name: "Luxtorpeda"@,
        forge: Forge::GitHub,
        repository_account: "luxtorpeda-dev"@,
        repository_name: "luxtorpeda"@,
        compatible_applications: seq![AppView::Steam],
        tool_type: ToolType::Runtime,
        release_asset_filter: None,
        file_name_replacement: None,
        file_name_template: None,
    }
}

/// The built-in tool catalog, in order.
pub open spec fn spec_default_tools() -> Seq<CompatToolView> {
    seq![spec_geproton_tool(), spec_winege_tool(), spec_luxtorpeda_tool()]
}

/// Builds the built-in tool catalog.
pub fn default_compat_tools() -> (r: Vec<CompatTool>)
    ensures
        r@.map_values(|t: CompatTool| t@) == spec_default_tools(),
{
    let mut steam: Vec<App> = Vec::new();
    steam.push(App::Steam);
    let mut lutris: Vec<App> = Vec::new();
    lutris.push(App::Lutris);
    let mut steam2: Vec<App> = Vec::new();
    steam2.push(App::Steam);
    let geproton = CompatTool {
        name: to_owned_str("GEProton"),
        forge: Forge::GitHub,
        repository_account: to_owned_str("GloriousEggroll"),
        repository_name: to_owned_str("proton-ge-custom"),
        compatible_applications: steam,
        tool_type: ToolType::WineBased,
        release_asset_filter: None,
        file_name_replacement: None,
        file_name_template: None,
    };
    let winege = CompatTool {
        name: to_owned_str("WineGE"),
        forge: Forge::GitHub,
        repository_account: to_owned_str("GloriousEggroll"),
        repository_name: to_owned_str("wine-ge-custom"),
        compatible_applications: lutris,
        tool_type: ToolType::WineBased,
        release_asset_filter: None,
        file_name_replacement: Some((to_owned_str("Proton"), to_owned_str("Wine"))),
        file_name_template: None,
    };
    let luxtorpeda = CompatTool {
        name: to_owned_str("Luxtorpeda"),
        forge: Forge::GitHub,
        repository_account: to_owned_str("luxtorpeda-dev"),
        repository_name: to_owned_str("luxtorpeda"),
        compatible_applications: steam2,
        tool_type: ToolType::Runtime,
        release_asset_filter: None,
        file_name_replacement: None,
        file_name_template: None,
    };
    let mut r: Vec<CompatTool> = Vec::new();
    proof {
        assert(geproton@ =~= spec_geproton_tool());
        assert(winege@ =~= spec_winege_tool());
        assert(luxtorpeda@ =~= spec_luxtorpeda_tool());
    }
    r.push(geproton);
    r.push(winege);
    r.push(luxtorpeda);
    proof {
        assert(r@.map_values(|t: CompatTool| t@) =~= spec_default_tools());
    }
    r
}

/// The first of the tools `ts` whose name equals `input` up to ASCII
/// case.
pub open spec fn first_tool_named(ts: Seq<CompatToolView>, input: Seq<char>) -> Option<
    CompatToolView,
>
    decreases ts.len(),
{
    if ts.len() == 0 {
        None
    } else if ascii_case_eq(ts[0].name, input) {
        Some(ts[0])
    } else {
        first_tool_named(ts.skip(1), input)
    }
}

/// Looks a tool up in the built-in catalog by name, ignoring ASCII
/// case: the first catalog entry so named, or nothing.
pub fn tool_from_name(input: &str) -> (r: Option<CompatTool>)
    ensures
        match r {
            Some(t) => first_tool_named(spec_default_tools(), input@) == Some(t@),
            None => first_tool_named(spec_default_tools(), input@) is None,
        },
{
    let mut tools = default_compat_tools();
    let ghost sd = spec_default_tools();
    proof {
        assert(tools@.map_values(|t: CompatTool| t@) =~= sd.skip(0));
    }
    loop
        invariant
            sd == spec_default_tools(),
            tools@.map_values(|t: CompatTool| t@) == sd.skip(sd.len() - tools@.len()),
            tools@.len() <= sd.len(),
            first_tool_named(sd.skip(sd.len() - tools@.len()), input@) == first_tool_named(
                sd,
                input@,
            ),
        decreases tools@.len(),
    {
        let ghost k = sd.len() - tools@.len();
        if tools.len() == 0 {
            proof {
                assert(sd.skip(sd.len() as int) =~= Seq::<CompatToolView>::empty());
            }
            return None;
        }
        let ghost prev = tools@;
        proof {
            assert(prev.map_values(|t: CompatTool| t@)[0] == sd.skip(k)[0]);
            assert(sd.skip(k)[0] == sd[k]);
        }
        let t = tools.remove(0);
        proof {
            assert(t@ == sd[k]);
            assert(tools@ =~= prev.skip(1));
            assert(prev.map_values(|t: CompatTool| t@) == sd.skip(k));
            assert forall|j: int| 0 <= j < tools@.len() implies #[trigger] sd.skip(k + 1)[j]
                == tools@.map_values(|t: CompatTool| t@)[j] by {
                assert(tools@[j] == prev[j + 1]);
                assert(prev.map_values(|t: CompatTool| t@)[j + 1] == prev[j + 1]@);
                assert(sd.skip(k)[j + 1] == sd[k + 1 + j]);
                assert(sd.skip(k + 1)[j] == sd[k + 1 + j]);
            }
            assert(tools@.map_values(|t: CompatTool| t@) =~= sd.skip(k + 1));
            assert(sd.skip(k).skip(1) =~= sd.skip(k + 1));
        }
        if eq_ignore_ascii_case_str(t.name.as_str(), input) {
            proof {
                assert(first_tool_named(sd.skip(k), input@) == Some(sd[k]));
            }
            return Some(t);
        }
    }
}

/// `a` and `b` are the same character up to ASCII case: equal, or one
/// is the upper-case ASCII letter of the other.
pub open spec fn ascii_ci_char_eq(a: char, b: char) -> bool {
    ||| a == b
    ||| (65 <= a as int && a as int <= 90 && a as int + 32 == b as int)
    ||| (65 <= b as int && b as int <= 90 && b as int + 32 == a as int)
}

/// The two strings are equal up to ASCII case.
pub open spec fn ascii_case_eq(a: Seq<char>, b: Seq<char>) -> bool {
    a.len() == b.len() && forall|i: int| 0 <= i < a.len() ==> ascii_ci_char_eq(a[i], b[i])
}

/// Whether two characters match up to ASCII case, per
/// [`ascii_ci_char_eq`].
fn chars_ci_eq(a: char, b: char) -> (r: bool)
    ensures
        r == ascii_ci_char_eq(a, b),
{
    let x = a as u32;
    let y = b as u32;
    a == b || (65 <= x && x <= 90 && x + 32 == y) || (65 <= y && y <= 90 && y + 32 == x)
}

/// Whether two strings are equal up to ASCII case, per
/// [`ascii_case_eq`].
fn eq_ignore_ascii_case_str(a: &str, b: &str) -> (r: bool)
    ensures
        r == ascii_case_eq(a@, b@),
{
    let n: usize = a.unicode_len();
    let m: usize = b.unicode_len();
    if n != m {
        return false;
    }
    let mut i: usize = 0;
    while i < n
        invariant
            n == a@.len() && n == b@.len(),
            0 <= i <= n,
            forall|j: int| 0 <= j < i ==> ascii_ci_char_eq(a@[j], b@[j]),
        decreases n - i,
    {
        if !chars_ci_eq(a.get_char(i), b.get_char(i)) {
            return false;
        }
        i = i + 1;
    }
    true
}

impl core::str::FromStr for CompatTool {
    type Err = ();

    /// Finds the catalog tool whose name matches `input`, ignoring ASCII
    /// case.
    fn from_str(input: &str) -> Result<CompatTool, ()> {
        match tool_from_name(input) {
            Some(t) => Ok(t),
            None => Err(()),
        }
    }
}

} // verus!
