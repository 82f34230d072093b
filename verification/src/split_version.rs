//! Splitting a package specifier such as `registry.io/namespace/name@1.0:cmd`
//! into its registry, package, version and command.

use vstd::prelude::*;

use crate::pattern::{captures, compile_pattern, regex_captures, regex_compiles};
use crate::text::{
    contains_str, debug_quote, debug_quoted, ends_with, find_last, has_infix, has_suffix, last_index_of, lemma_last_index_of,
    lemma_trim_keeps, occurs_at, trim, trim_str,
};

verus! {

/// A package specifier, split into its parts.
#[derive(Debug, Clone, PartialEq, Eq)]
pub struct SplitVersion {
    /// The text that was split.
    pub original: String,
    /// The GraphQL endpoint of the registry, when the specifier names one.
    pub registry: Option<String>,
    /// `namespace/name`.
    pub package: String,
    /// The version after `@`, if any.
    pub version: Option<String>,
    /// The command after `:`, if any.
    pub command: Option<String>,
}

/// The mathematical value of a `SplitVersion`.
pub struct SplitVersionView {
    pub original: Seq<char>,
    pub registry: Option<Seq<char>>,
    pub package: Seq<char>,
    pub version: Option<Seq<char>>,
    pub command: Option<Seq<char>>,
}

impl View for SplitVersion {
    type V = SplitVersionView;

    open spec fn view(&self) -> SplitVersionView {
        SplitVersionView {
            original: self.original@,
            registry: self.registry.deep_view(),
            package: self.package@,
            version: self.version.deep_view(),
            command: self.command.deep_view(),
        }
    }
}

/// Why a package specifier could not be split.
#[derive(Debug, Clone, PartialEq, Eq)]
pub enum SplitVersionError {
    /// The regex engine refused one of the specifier patterns (carried here).
    PatternRejected(String),
    /// The specifier (carried here) has none of the accepted shapes.
    InvalidVersion(String),
    /// The specifier (carried here) yielded no namespace.
    NoNamespace(String),
    /// The specifier (carried here) yielded no name.
    NoName(String),
    /// The package (carried here) is a reserved name.
    InvalidName(String),
}

/// The mathematical value of a `SplitVersionError`.
pub enum SplitVersionErrorView {
    PatternRejected(Seq<char>),
    InvalidVersion(Seq<char>),
    NoNamespace(Seq<char>),
    NoName(Seq<char>),
    InvalidName(Seq<char>),
}

impl View for SplitVersionError {
    type V = SplitVersionErrorView;

    open spec fn view(&self) -> SplitVersionErrorView {
        match self {
            SplitVersionError::PatternRejected(p) => SplitVersionErrorView::PatternRejected(p@),
            SplitVersionError::InvalidVersion(s) => SplitVersionErrorView::InvalidVersion(s@),
            SplitVersionError::NoNamespace(s) => SplitVersionErrorView::NoNamespace(s@),
            SplitVersionError::NoName(s) => SplitVersionErrorView::NoName(s@),
            SplitVersionError::InvalidName(p) => SplitVersionErrorView::InvalidName(p@),
        }
    }
}

/// The value of a parse result.
pub open spec fn result_view(r: Result<SplitVersion, SplitVersionError>) -> Result<
    SplitVersionView,
    SplitVersionErrorView,
> {
    match r {
        Ok(v) => Ok(v@),
        Err(e) => Err(e@),
    }
}

/// `registry/namespace/name@version:command`
pub open spec fn pattern_with_command() -> Seq<char> {
    "(.*)/(.*)@(.*):(.*)"@
}

/// `registry/namespace/name@version`
pub open spec fn pattern_with_version() -> Seq<char> {
    "(.*)/(.*)@(.*)"@
}

/// `registry/namespace/name`
pub open spec fn pattern_bare() -> Seq<char> {
    "(.*)/(.*)"@
}

/// `registry/namespace/name:command`
pub open spec fn pattern_command_only() -> Seq<char> {
    "(.*)/(.*):(.*)"@
}

/// The texts of the groups that took part in a match, in order.
pub open spec fn flatten_groups(g: Seq<Option<Seq<char>>>) -> Seq<Seq<char>>
    decreases g.len(),
{
    if g.len() == 0 {
        seq![]
    } else {
        let rest = flatten_groups(g.drop_last());
        match g.last() {
            Some(t) => rest.push(t),
            None => rest,
        }
    }
}

/// The groups of the first shape that matches `s`, tried in the order
/// version-and-command, version, command-only, bare; the flag tells
/// whether the command-only shape matched (then there is no version).
pub open spec fn matched_groups(s: Seq<char>) -> Option<(Seq<Seq<char>>, bool)> {
    if let Some(g) = regex_captures(pattern_with_command(), s) {
        Some((flatten_groups(g), false))
    } else if let Some(g) = regex_captures(pattern_with_version(), s) {
        Some((flatten_groups(g), false))
    } else if let Some(g) = regex_captures(pattern_command_only(), s) {
        Some((flatten_groups(g), true))
    } else if let Some(g) = regex_captures(pattern_bare(), s) {
        Some((flatten_groups(g), false))
    } else {
        None
    }
}

/// The GraphQL endpoint for the registry host `r`: `/graphql` is appended
/// unless `r` already ends with `graphql`, and `https://` is put in front
/// unless a scheme (`://`) is present.
pub open spec fn registry_url(r: Seq<char>) -> Seq<char> {
    let with_path = if has_suffix(r, "graphql"@) {
        r
    } else {
        r + "/graphql"@
    };
    if has_infix(with_path, "://"@) {
        with_path
    } else {
        "https://"@ + with_path
    }
}

/// A namespace that holds a `/` names a registry before its last `/`.
pub open spec fn split_registry(ns: Seq<char>) -> (Option<Seq<char>>, Seq<char>) {
    let k = last_index_of(ns, '/');
    if k >= 0 {
        (Some(registry_url(ns.subrange(0, k))), ns.subrange(k + 1, ns.len() as int))
    } else {
        (None, ns)
    }
}

/// What a specifier `s` splits into, given the texts of the groups that
/// matched (`caps[0]` the whole match), whether it was the command-only
/// shape, and the reserved package names.
pub open spec fn split_from_groups(
    s: Seq<char>,
    caps: Seq<Seq<char>>,
    no_version: bool,
    reserved: Seq<Seq<char>>,
) -> Result<SplitVersionView, SplitVersionErrorView> {
    if caps.len() < 2 {
        Err(SplitVersionErrorView::NoNamespace(s))
    } else if caps.len() < 3 {
        Err(SplitVersionErrorView::NoName(s))
    } else {
        let (registry, namespace) = split_registry(caps[1]);
        let package = namespace + "/"@ + caps[2];
        let version = if no_version || caps.len() < 4 {
            None
        } else {
            Some(caps[3])
        };
        let cmd_idx: int = if no_version {
            3
        } else {
            4
        };
        let command = if caps.len() > cmd_idx {
            Some(caps[cmd_idx])
        } else {
            None
        };
        if reserved.contains(trim(package)) {
            Err(SplitVersionErrorView::InvalidName(package))
        } else {
            Ok(
                SplitVersionView {
                    original: s,
                    registry,
                    package,
                    version,
                    command,
                },
            )
        }
    }
}

/// What splitting `s` gives, with `reserved` the package names that are
/// refused.
pub open spec fn split_spec(s: Seq<char>, reserved: Seq<Seq<char>>) -> Result<
    SplitVersionView,
    SplitVersionErrorView,
> {
    if !regex_compiles(pattern_with_command()) {
        Err(SplitVersionErrorView::PatternRejected(pattern_with_command()))
    } else if !regex_compiles(pattern_with_version()) {
        Err(SplitVersionErrorView::PatternRejected(pattern_with_version()))
    } else if !regex_compiles(pattern_bare()) {
        Err(SplitVersionErrorView::PatternRejected(pattern_bare()))
    } else if !regex_compiles(pattern_command_only()) {
        Err(SplitVersionErrorView::PatternRejected(pattern_command_only()))
    } else {
        match matched_groups(s) {
            None => Err(SplitVersionErrorView::InvalidVersion(s)),
            Some((caps, no_version)) => split_from_groups(s, caps, no_version, reserved),
        }
    }
}

/// The message that describes an error, as the command line shows it.
pub open spec fn error_message(e: SplitVersionErrorView) -> Seq<char> {
    match e {
        SplitVersionErrorView::PatternRejected(p) => "Invalid pattern "@ + debug_quoted(p),
        SplitVersionErrorView::InvalidVersion(s) => "Invalid package version: "@ + debug_quoted(s),
        SplitVersionErrorView::NoNamespace(s) => "Invalid package version: "@ + debug_quoted(s)
            + ": no namespace"@,
        SplitVersionErrorView::NoName(s) => "Invalid package version: "@ + debug_quoted(s)
            + ": no name"@,
        SplitVersionErrorView::InvalidName(p) => "Invalid package name "@ + debug_quoted(p),
    }
}

/// The text a split specifier is shown as: `package@version`, with
/// `latest` for a missing version, followed by `:command` when there is one.
pub open spec fn display_text(v: SplitVersionView) -> Seq<char> {
    let version = match v.version {
        Some(ver) => ver,
        None => "latest"@,
    };
    let command = match v.command {
        Some(c) => ":"@ + c,
        None => Seq::<char>::empty(),
    };
    v.package + "@"@ + version + command
}

impl SplitVersionError {
    /// The message that describes this error.
    pub fn to_string(&self) -> (m: String)
        ensures
            m@ == error_message(self@),
    {
        match self {
            SplitVersionError::PatternRejected(p) => String::from_str("Invalid pattern ").concat(
                debug_quote(p.as_str()).as_str(),
            ),
            SplitVersionError::InvalidVersion(s) => String::from_str(
                "Invalid package version: ",
            ).concat(debug_quote(s.as_str()).as_str()),
            SplitVersionError::NoNamespace(s) => String::from_str(
                "Invalid package version: ",
            ).concat(debug_quote(s.as_str()).as_str()).concat(": no namespace"),
            SplitVersionError::NoName(s) => String::from_str("Invalid package version: ").concat(
                debug_quote(s.as_str()).as_str(),
            ).concat(": no name"),
            SplitVersionError::InvalidName(p) => String::from_str("Invalid package name ").concat(
                debug_quote(p.as_str()).as_str(),
            ),
        }
    }
}

impl Default for SplitVersion {
    fn default() -> (r: SplitVersion)
        ensures
            r@ == (SplitVersionView {
                original: Seq::<char>::empty(),
                registry: None,
                package: Seq::<char>::empty(),
                version: None,
                command: None,
            }),
    {
        SplitVersion {
            original: String::new(),
            registry: None,
            package: String::new(),
            version: None,
            command: None,
        }
    }
}

impl core::str::FromStr for SplitVersion {
    type Err = SplitVersionError;

    fn from_str(s: &str) -> (res: Result<SplitVersion, SplitVersionError>)
        ensures
            result_view(res) == split_spec(s@, Seq::<Seq<char>>::empty()),
    {
        SplitVersion::parse(s)
    }
}

/// A successful split keeps the specifier it split as `original`.
pub proof fn law_split_keeps_original(s: Seq<char>, reserved: Seq<Seq<char>>)
    ensures
        split_spec(s, reserved) matches Ok(v) ==> v.original == s,
{
}

/// The package of a successful split is a namespace and a name joined by
/// `/`.
pub proof fn law_package_is_joined(s: Seq<char>, reserved: Seq<Seq<char>>)
    ensures
        split_spec(s, reserved) matches Ok(v) ==> exists|ns: Seq<char>, name: Seq<char>|
            v.package == ns + "/"@ + name,
{
    if let Ok(v) = split_spec(s, reserved) {
        if let Some((caps, nv)) = matched_groups(s) {
            let (registry, namespace) = split_registry(caps[1]);
            assert(v.package == namespace + "/"@ + caps[2]);
        }
    }
}

/// A registry endpoint always ends with `graphql` and always names a
/// scheme.
pub proof fn law_registry_url_shape(r: Seq<char>)
    ensures
        has_suffix(registry_url(r), "graphql"@),
        has_infix(registry_url(r), "://"@),
{
    reveal_strlit("graphql");
    reveal_strlit("/graphql");
    reveal_strlit("://");
    reveal_strlit("https://");
    let with_path = if has_suffix(r, "graphql"@) {
        r
    } else {
        r + "/graphql"@
    };
    if !has_suffix(r, "graphql"@) {
        assert(with_path.subrange(with_path.len() - 7, with_path.len() as int) =~= "graphql"@);
    }
    assert(has_suffix(with_path, "graphql"@));
    if !has_infix(with_path, "://"@) {
        let u = "https://"@ + with_path;
        assert(u.subrange(u.len() - 7, u.len() as int) =~= with_path.subrange(
            with_path.len() - 7,
            with_path.len() as int,
        ));
        assert(u.subrange(5, 8) =~= "://"@);
        assert(occurs_at(u, "://"@, 5));
    }
}

/// Reserving names that hold no `/` never refuses a package: the result is
/// the same as with nothing reserved.
pub proof fn law_reserved_without_slash(s: Seq<char>, reserved: Seq<Seq<char>>)
    requires
        forall|i: int| 0 <= i < reserved.len() ==> !reserved[i].contains('/'),
    ensures
        split_spec(s, reserved) == split_spec(s, Seq::<Seq<char>>::empty()),
{
    reveal_strlit("/");
    if let Some((caps, nv)) = matched_groups(s) {
        if caps.len() >= 3 {
            let (registry, namespace) = split_registry(caps[1]);
            let package = namespace + "/"@ + caps[2];
            assert(package[namespace.len() as int] == '/');
            assert(package.contains('/'));
            lemma_trim_keeps(package, '/');
            if reserved.contains(trim(package)) {
                let i = choose|i: int| 0 <= i < reserved.len() && reserved[i] == trim(package);
                assert(false);
            }
        }
    }
}

/// Splitting a shown specifier again gives back its parts, once the regex
/// has reported the groups of its shape for the shown text: the whole text,
/// the namespace, the name, the version and, when there is one, the command.
/// The version comes back as `latest` where there was none. (Which groups
/// the regex reports is the regex crate's own result and is not stated
/// here.)
pub proof fn law_display_groups_roundtrip(
    v: SplitVersionView,
    ns: Seq<char>,
    name: Seq<char>,
    reserved: Seq<Seq<char>>,
)
    requires
        v.registry is None,
        v.package == ns + "/"@ + name,
        !ns.contains('/'),
        !reserved.contains(trim(v.package)),
    ensures
        ({
            let text = display_text(v);
            let ver = match v.version {
                Some(x) => x,
                None => "latest"@,
            };
            let caps = match v.command {
                Some(c) => seq![text, ns, name, ver, c],
                None => seq![text, ns, name, ver],
            };
            split_from_groups(text, caps, false, reserved) == Ok::<_, SplitVersionErrorView>(
                SplitVersionView {
                    original: text,
                    registry: None,
                    package: v.package,
                    version: Some(ver),
                    command: v.command,
                },
            )
        }),
{
    lemma_last_index_of(ns, '/');
}

/// With the five groups of the version-and-command shape, a successful
/// split takes its version from the fourth group and its command from the
/// fifth, whatever the namespace group holds and whether or not it names a
/// registry; the registry part only decides `registry` and the namespace.
pub proof fn law_full_shape_keeps_version_and_command(
    s: Seq<char>,
    caps: Seq<Seq<char>>,
    reserved: Seq<Seq<char>>,
)
    requires
        caps.len() == 5,
    ensures
        split_from_groups(s, caps, false, reserved) matches Ok(v) ==> {
            &&& v.version == Some(caps[3])
            &&& v.command == Some(caps[4])
            &&& v.original == s
            &&& v.package == split_registry(caps[1]).1 + "/"@ + caps[2]
        },
        (split_from_groups(s, caps, false, reserved) is Ok) <==> !reserved.contains(
            trim(split_registry(caps[1]).1 + "/"@ + caps[2]),
        ),
{
}

/// With the four groups of the command-only shape, a successful split has no
/// version and takes its command from the fourth group.
pub proof fn law_command_shape_has_no_version(
    s: Seq<char>,
    caps: Seq<Seq<char>>,
    reserved: Seq<Seq<char>>,
)
    requires
        caps.len() == 4,
    ensures
        split_from_groups(s, caps, true, reserved) matches Ok(v) ==> {
            &&& v.version is None
            &&& v.command == Some(caps[3])
        },
{
}

/// A namespace group without `/` names no registry and is the namespace;
/// one with `/` names the registry before its last `/`, and the namespace
/// is what follows it.
pub proof fn law_registry_split(ns: Seq<char>)
    ensures
        !ns.contains('/') ==> split_registry(ns) == (None::<Seq<char>>, ns),
        ns.contains('/') ==> exists|k: int|
            0 <= k < ns.len() && ns[k] == '/' && !ns.subrange(k + 1, ns.len() as int).contains('/')
                && split_registry(ns) == (Some(registry_url(ns.subrange(0, k))), ns.subrange(
                k + 1,
                ns.len() as int,
            )),
{
    lemma_last_index_of(ns, '/');
    if ns.contains('/') {
        let k = last_index_of(ns, '/');
        let t = ns.subrange(k + 1, ns.len() as int);
        if t.contains('/') {
            let j = choose|j: int| 0 <= j < t.len() && t[j] == '/';
            assert(ns[k + 1 + j] == '/');
        }
    }
}

/// The shown text of a split is its package, `@`, its version (`latest`
/// when it has none), and `:` with the command when it has one.
pub proof fn law_display_parts(v: SplitVersionView)
    ensures
        v.version matches Some(x) ==> (v.command matches Some(c) ==> display_text(v)
            == v.package + "@"@ + x + ":"@ + c),
        v.version matches Some(x) ==> (v.command is None ==> display_text(v) == v.package + "@"@
            + x),
        v.version is None ==> (v.command matches Some(c) ==> display_text(v) == v.package + "@"@
            + "latest"@ + ":"@ + c),
        v.version is None ==> (v.command is None ==> display_text(v) == v.package + "@"@
            + "latest"@),
{
    match v.command {
        Some(c) => {
            let ver = match v.version {
                Some(x) => x,
                None => "latest"@,
            };
            assert(v.package + "@"@ + ver + (":"@ + c) =~= v.package + "@"@ + ver + ":"@ + c);
        },
        None => {
            let ver = match v.version {
                Some(x) => x,
                None => "latest"@,
            };
            assert(v.package + "@"@ + ver + Seq::<char>::empty() =~= v.package + "@"@ + ver);
        },
    }
}

/// The texts of the groups that took part in a match.
fn flatten(groups: &Vec<Option<String>>) -> (r: Vec<String>)
    ensures
        r.deep_view() == flatten_groups(groups.deep_view()),
{
    let mut out: Vec<String> = Vec::new();
    let mut i: usize = 0;
    while i < groups.len()
        invariant
            i <= groups.len(),
            out.deep_view() == flatten_groups(groups.deep_view().take(i as int)),
        decreases groups.len() - i,
    {
        assert(groups.deep_view().take(i + 1).drop_last() == groups.deep_view().take(i as int));
        match &groups[i] {
            Some(t) => {
                out.push(t.clone());
            },
            None => {},
        }
        i = i + 1;
    }
    assert(groups.deep_view().take(groups.len() as int) == groups.deep_view());
    out
}

/// The registry endpoint for the host text `r`.
fn registry_for(r: &str) -> (u: String)
    ensures
        u@ == registry_url(r@),
{
    let with_path = if ends_with(r, "graphql") {
        String::from_str(r)
    } else {
        String::from_str(r).concat("/graphql")
    };
    if contains_str(with_path.as_str(), "://") {
        with_path
    } else {
        String::from_str("https://").concat(with_path.as_str())
    }
}

/// Whether `name` is one of `names`.
fn is_listed(names: &Vec<String>, name: &str) -> (r: bool)
    ensures
        r == names.deep_view().contains(name@),
{
    let target = String::from_str(name);
    let mut i: usize = 0;
    while i < names.len()
        invariant
            i <= names.len(),
            target@ == name@,
            forall|j: int| 0 <= j < i ==> names.deep_view()[j] != name@,
        decreases names.len() - i,
    {
        if names[i] == target {
            assert(names.deep_view()[i as int] == name@);
            return true;
        }
        i = i + 1;
    }
    false
}

impl SplitVersion {
    /// Splits the package specifier `s`; no package name is reserved. (The
    /// command line's subcommand names hold no `/`, and reserving such names
    /// never changes the result: see `law_reserved_without_slash`.)
    pub fn parse(s: &str) -> (res: Result<SplitVersion, SplitVersionError>)
        ensures
            result_view(res) == split_spec(s@, Seq::<Seq<char>>::empty()),
    {
        let none: Vec<String> = Vec::new();
        assert(none.deep_view() == Seq::<Seq<char>>::empty());
        Self::parse_reserving(s, &none)
    }

    /// The text this specifier is shown as.
    pub fn to_string(&self) -> (m: String)
        ensures
            m@ == display_text(self@),
    {
        let version = match &self.version {
            Some(v) => v.as_str(),
            None => "latest",
        };
        let base = self.package.clone().concat("@").concat(version);
        match &self.command {
            Some(c) => base.concat(":").concat(c.as_str()),
            None => {
                assert(base@ + Seq::<char>::empty() == base@);
                base
            },
        }
    }

    /// Splits `s` into its parts, refusing a package whose trimmed text is
    /// one of `reserved`.
    pub fn parse_reserving(s: &str, reserved: &Vec<String>) -> (res: Result<
        SplitVersion,
        SplitVersionError,
    >)
        ensures
            result_view(res) == split_spec(s@, reserved.deep_view()),
    {
        let full = "(.*)/(.*)@(.*):(.*)";
        let versioned = "(.*)/(.*)@(.*)";
        let bare = "(.*)/(.*)";
        let command_only = "(.*)/(.*):(.*)";
        let re1 = match compile_pattern(full) {
            Some(re) => re,
            None => return Err(SplitVersionError::PatternRejected(String::from_str(full))),
        };
        let re2 = match compile_pattern(versioned) {
            Some(re) => re,
            None => return Err(SplitVersionError::PatternRejected(String::from_str(versioned))),
        };
        let re3 = match compile_pattern(bare) {
            Some(re) => re,
            None => return Err(SplitVersionError::PatternRejected(String::from_str(bare))),
        };
        let re4 = match compile_pattern(command_only) {
            Some(re) => re,
            None => return Err(
                SplitVersionError::PatternRejected(String::from_str(command_only)),
            ),
        };
        let (groups, no_version) = match captures(&re1, s) {
            Some(g) => (g, false),
            None => match captures(&re2, s) {
                Some(g) => (g, false),
                None => match captures(&re4, s) {
                    Some(g) => (g, true),
                    None => match captures(&re3, s) {
                        Some(g) => (g, false),
                        None => return Err(SplitVersionError::InvalidVersion(String::from_str(s))),
                    },
                },
            },
        };
        Self::from_groups(s, &groups, no_version, reserved)
    }

    /// Splits the specifier `s` given the capture groups that its shape's
    /// pattern reported (`None` for a group that took no part), whether
    /// that shape was the command-only one, and the reserved names.
    pub fn from_groups(
        s: &str,
        groups: &Vec<Option<String>>,
        no_version: bool,
        reserved: &Vec<String>,
    ) -> (res: Result<SplitVersion, SplitVersionError>)
        ensures
            result_view(res) == split_from_groups(
                s@,
                flatten_groups(groups.deep_view()),
                no_version,
                reserved.deep_view(),
            ),
    {
        let caps = flatten(groups);
        if caps.len() < 2 {
            return Err(SplitVersionError::NoNamespace(String::from_str(s)));
        }
        if caps.len() < 3 {
            return Err(SplitVersionError::NoName(String::from_str(s)));
        }
        let ns = caps[1].as_str();
        let ns_len = ns.unicode_len();
        proof {
            lemma_last_index_of(ns@, '/');
        }
        let (registry, namespace) = match find_last(ns, '/') {
            Some(k) => {
                let r = ns.substring_char(0, k);
                let n = ns.substring_char(k + 1, ns_len);
                (Some(registry_for(r)), String::from_str(n))
            },
            None => (None, String::from_str(ns)),
        };
        let package = namespace.concat("/").concat(caps[2].as_str());
        let version = if no_version || caps.len() < 4 {
            None
        } else {
            Some(caps[3].clone())
        };
        let cmd_idx: usize = if no_version {
            3
        } else {
            4
        };
        let command = if caps.len() > cmd_idx {
            Some(caps[cmd_idx].clone())
        } else {
            None
        };
        if is_listed(reserved, trim_str(package.as_str())) {
            return Err(SplitVersionError::InvalidName(package));
        }
        Ok(SplitVersion { original: String::from_str(s), registry, package, version, command })
    }
}

} // verus!
